use genealogy::dates::{Date, format_date, is_valid_date, parse_date};
use genealogy::domain::{GraphError, Person, PersonId, Relationship};
use genealogy::queries::{
    ParamValue, PersonRow, add_relationship_query, create_person_query, family_tree_query,
    get_all_persons_query, get_person_query, person_from_row,
};
use genealogy::text::{parse_u64, split_on};

#[test]
fn parse_date_exact_values() {
    assert_eq!(
        parse_date("1815-12-10"),
        Some(Date { year: 1815, month: 12, day: 10 })
    );
    assert_eq!(parse_date("0001-01-01"), Some(Date { year: 1, month: 1, day: 1 }));
    assert_eq!(parse_date("9999-12-31"), Some(Date { year: 9999, month: 12, day: 31 }));
}

#[test]
fn parse_date_rejects_malformed_text() {
    assert_eq!(parse_date(""), None);
    assert_eq!(parse_date("1815-12-1"), None);
    assert_eq!(parse_date("1815/12/10"), None);
    assert_eq!(parse_date("yyyy-mm-dd"), None);
    assert_eq!(parse_date("1815-12-100"), None);
}

#[test]
fn parse_date_rejects_impossible_days() {
    assert_eq!(parse_date("2021-02-29"), None);
    assert_eq!(parse_date("2020-02-30"), None);
    assert_eq!(parse_date("1999-04-31"), None);
    assert_eq!(parse_date("1999-00-10"), None);
    assert_eq!(parse_date("1999-13-10"), None);
    assert_eq!(parse_date("1999-05-00"), None);
}

#[test]
fn leap_year_rules() {
    // a century year is a leap year only when divisible by four hundred
    assert_eq!(parse_date("2000-02-29"), Some(Date { year: 2000, month: 2, day: 29 }));
    assert_eq!(parse_date("1900-02-29"), None);
    assert_eq!(parse_date("2020-02-29"), Some(Date { year: 2020, month: 2, day: 29 }));
}

#[test]
fn format_parse_round_trip() {
    for d in [
        Date { year: 1815, month: 12, day: 10 },
        Date { year: 1, month: 1, day: 1 },
        Date { year: 2000, month: 2, day: 29 },
        Date { year: 9999, month: 12, day: 31 },
    ] {
        assert!(is_valid_date(&d));
        let text = format_date(&d);
        assert_eq!(parse_date(&text), Some(d));
    }
    assert_eq!(format_date(&Date { year: 7, month: 3, day: 4 }), "0007-03-04");
}

#[test]
fn date_order() {
    let a = Date { year: 1900, month: 5, day: 2 };
    let b = Date { year: 1900, month: 5, day: 3 };
    let c = Date { year: 1901, month: 1, day: 1 };
    assert!(a.le(&a));
    assert!(a.le(&b));
    assert!(!b.le(&a));
    assert!(b.le(&c));
}

#[test]
fn parse_u64_values_and_limits() {
    assert_eq!(parse_u64("0"), Some(0));
    assert_eq!(parse_u64("42"), Some(42));
    assert_eq!(parse_u64("0042"), Some(42));
    assert_eq!(parse_u64("18446744073709551615"), Some(u64::MAX));
    assert_eq!(parse_u64("18446744073709551616"), None);
    assert_eq!(parse_u64(""), None);
    assert_eq!(parse_u64("12x"), None);
    assert_eq!(parse_u64("-1"), None);
    assert_eq!(parse_u64(" 1"), None);
}

#[test]
fn split_on_keeps_every_piece() {
    assert_eq!(split_on("a,b,,c", ','), vec!["a", "b", "", "c"]);
    assert_eq!(split_on("", ','), vec![""]);
    assert_eq!(split_on(",", ','), vec!["", ""]);
    assert_eq!(split_on("no delimiter", ','), vec!["no delimiter"]);
    assert_eq!(split_on("a,", ','), vec!["a", ""]);
    assert_eq!(split_on(" a , b ", ','), vec![" a ", " b "]);
}

#[test]
fn create_person_query_binds_each_attribute() {
    let p = Person {
        first_name: "Ada".to_string(),
        middle_name: None,
        last_name: "Lovelace".to_string(),
        maiden_name: Some("Byron".to_string()),
        nick_name: None,
        full_name: "Ada Lovelace".to_string(),
        born: Some(Date { year: 1815, month: 12, day: 10 }),
        deceased: None,
        info: None,
    };
    let (text, params) = create_person_query(&p);
    assert!(text.contains("$firstName"));
    assert!(!text.contains("Ada"), "values are parameters, never in the text");
    assert_eq!(params.len(), 9);
    assert_eq!(params[0].0, "firstName");
    assert!(matches!(&params[0].1, ParamValue::Text(t) if t == "Ada"));
    assert!(matches!(params[1].1, ParamValue::Absent));
    assert!(matches!(&params[3].1, ParamValue::Text(t) if t == "Byron"));
    assert_eq!(params[6].0, "born");
    assert!(matches!(&params[6].1, ParamValue::Text(t) if t == "1815-12-10"));
    assert!(matches!(params[7].1, ParamValue::Absent));
}

#[test]
fn get_person_query_binds_the_identifier() {
    let (text, params) = get_person_query(PersonId { value: 12 });
    assert!(text.contains("$id"));
    assert_eq!(params.len(), 1);
    assert_eq!(params[0].0, "id");
    assert!(matches!(params[0].1, ParamValue::Integer(12)));
}

#[test]
fn add_relationship_query_marriage_params() {
    let rel = Relationship::Marriage {
        from_id: PersonId { value: 1 },
        to_id: PersonId { value: 2 },
        wedding_date: Some(Date { year: 1950, month: 5, day: 5 }),
        divorce_date: None,
    };
    let (text, params) = add_relationship_query(&rel);
    assert!(text.contains("MARRIED_TO"));
    assert_eq!(params.len(), 4);
    assert!(matches!(params[0].1, ParamValue::Integer(1)));
    assert!(matches!(params[1].1, ParamValue::Integer(2)));
    assert!(matches!(&params[2].1, ParamValue::Text(t) if t == "1950-05-05"));
    assert!(matches!(params[3].1, ParamValue::Absent));

    let parent = Relationship::Parent {
        from_id: PersonId { value: 3 },
        to_id: PersonId { value: 4 },
    };
    let (ptext, pparams) = add_relationship_query(&parent);
    assert!(ptext.contains("PARENT_OF"));
    assert_eq!(pparams.len(), 2);
}

#[test]
fn family_tree_and_all_persons_query_texts() {
    let (text, params) = family_tree_query(PersonId { value: 8 });
    assert!(text.contains("[*1..3]"));
    assert!(text.contains("$person_id"));
    assert_eq!(params.len(), 1);
    assert!(matches!(params[0].1, ParamValue::Integer(8)));
    let all = get_all_persons_query();
    assert!(all.contains("MATCH (p:Person)"));
    assert!(all.contains("p.firstName"));
}

#[test]
fn person_from_row_maps_columns_back() {
    let row = PersonRow {
        first_name: Some("Ada".to_string()),
        middle_name: None,
        last_name: Some("Lovelace".to_string()),
        maiden_name: Some("Byron".to_string()),
        nick_name: None,
        full_name: Some("Ada Lovelace".to_string()),
        born: Some("1815-12-10".to_string()),
        deceased: None,
        info: Some("".to_string()),
    };
    let p = person_from_row(row).unwrap();
    assert_eq!(p.first_name, "Ada");
    assert_eq!(p.middle_name, None);
    assert_eq!(p.maiden_name, Some("Byron".to_string()));
    assert_eq!(p.born, Some(Date { year: 1815, month: 12, day: 10 }));
    assert_eq!(p.deceased, None);
    assert_eq!(p.info, Some("".to_string()));
}

#[test]
fn person_from_row_rejects_undecodable_date() {
    let row = PersonRow {
        first_name: Some("A".to_string()),
        middle_name: None,
        last_name: Some("B".to_string()),
        maiden_name: None,
        nick_name: None,
        full_name: Some("A B".to_string()),
        born: Some("not a date".to_string()),
        deceased: None,
        info: None,
    };
    assert_eq!(person_from_row(row), Err(GraphError::DataCorruption));
    // a stored empty string is not a date either: absent is the null marker
    let row2 = PersonRow {
        first_name: Some("A".to_string()),
        middle_name: None,
        last_name: Some("B".to_string()),
        maiden_name: None,
        nick_name: None,
        full_name: Some("A B".to_string()),
        born: None,
        deceased: Some("".to_string()),
        info: None,
    };
    assert_eq!(person_from_row(row2), Err(GraphError::DataCorruption));
}
