use genealogy::dates::Date;
use genealogy::domain::{GraphError, PersonId, Relationship};
use genealogy::records::{
    ImportRecord, parse_person_record, parse_relationship_record, person_records_from_text,
    relationship_records_from_text, split_statements,
};
use genealogy::repository::Repository;

fn fields(cols: &[&str]) -> Vec<String> {
    cols.iter().map(|c| c.to_string()).collect()
}

#[test]
fn parse_person_record_nine_columns() {
    let p = parse_person_record(&fields(&[
        "Ada", "King", "Lovelace", "Byron", "", "Ada Lovelace", "1815-12-10", "1852-11-27",
        "analyst",
    ]))
    .expect("well-formed row");
    assert_eq!(p.first_name, "Ada");
    assert_eq!(p.middle_name, Some("King".to_string()));
    assert_eq!(p.maiden_name, Some("Byron".to_string()));
    // present but empty column is recorded as blank, not unknown
    assert_eq!(p.nick_name, Some("".to_string()));
    assert_eq!(p.born, Some(Date { year: 1815, month: 12, day: 10 }));
    assert_eq!(p.deceased, Some(Date { year: 1852, month: 11, day: 27 }));
    assert_eq!(p.info, Some("analyst".to_string()));
}

#[test]
fn parse_person_record_empty_date_is_unknown() {
    let p = parse_person_record(&fields(&["A", "", "B", "", "", "A B", "", "", ""])).unwrap();
    assert_eq!(p.born, None);
    assert_eq!(p.deceased, None);
}

#[test]
fn parse_person_record_missing_columns_fails() {
    assert_eq!(
        parse_person_record(&fields(&["A", "", "B"])),
        Err(GraphError::RecordFormatError)
    );
    assert_eq!(
        parse_person_record(&fields(&["A", "", "B", "", "", "A B", "", "", "", "extra"])),
        Err(GraphError::RecordFormatError)
    );
}

#[test]
fn parse_person_record_malformed_date_fails() {
    assert_eq!(
        parse_person_record(&fields(&["A", "", "B", "", "", "A B", "1815-13-01", "", ""])),
        Err(GraphError::RecordFormatError)
    );
    assert_eq!(
        parse_person_record(&fields(&["A", "", "B", "", "", "A B", "not-a-date", "", ""])),
        Err(GraphError::RecordFormatError)
    );
}

#[test]
fn parse_relationship_record_parent() {
    let r = parse_relationship_record(&fields(&["PARENT", "3", "4", "", ""])).unwrap();
    assert_eq!(r, Relationship::Parent {
        from_id: PersonId { value: 3 },
        to_id: PersonId { value: 4 },
    });
}

#[test]
fn parse_relationship_record_marriage_with_dates() {
    let r = parse_relationship_record(&fields(&["MARRIAGE", "1", "2", "1990-06-15", ""])).unwrap();
    assert_eq!(r, Relationship::Marriage {
        from_id: PersonId { value: 1 },
        to_id: PersonId { value: 2 },
        wedding_date: Some(Date { year: 1990, month: 6, day: 15 }),
        divorce_date: None,
    });
}

#[test]
fn parse_relationship_record_type_is_case_sensitive() {
    assert_eq!(
        parse_relationship_record(&fields(&["parent", "1", "2", "", ""])),
        Err(GraphError::RecordFormatError)
    );
    assert_eq!(
        parse_relationship_record(&fields(&["SIBLING", "1", "2", "", ""])),
        Err(GraphError::RecordFormatError)
    );
}

#[test]
fn parse_relationship_record_bad_id_fails() {
    assert_eq!(
        parse_relationship_record(&fields(&["PARENT", "x", "2", "", ""])),
        Err(GraphError::RecordFormatError)
    );
    assert_eq!(
        parse_relationship_record(&fields(&["PARENT", "1", "", "", ""])),
        Err(GraphError::RecordFormatError)
    );
}

#[test]
fn batch_import_isolates_the_malformed_record() {
    let mut repo = Repository::new();
    let records = vec![
        ImportRecord::PersonRow { fields: fields(&["A", "", "X", "", "", "A X", "", "", ""]) },
        ImportRecord::PersonRow { fields: fields(&["B", "", "Y", "", "", "B Y", "", "", ""]) },
        ImportRecord::PersonRow { fields: fields(&["C", "", "Z", "", "", "C Z", "", "", ""]) },
        ImportRecord::PersonRow { fields: fields(&["D", "", "W"]) },
    ];
    let report = repo.import_from_records(&records);
    assert_eq!(report.succeeded, 3);
    assert_eq!(report.failed, vec![(3, GraphError::RecordFormatError)]);
    // the three valid persons are independently retrievable
    let a = repo.get_person(PersonId { value: 0 }).unwrap();
    let b = repo.get_person(PersonId { value: 1 }).unwrap();
    let c = repo.get_person(PersonId { value: 2 }).unwrap();
    assert_eq!(a.first_name, "A");
    assert_eq!(b.first_name, "B");
    assert_eq!(c.first_name, "C");
    assert_eq!(repo.get_person(PersonId { value: 3 }), None);
}

#[test]
fn batch_import_continues_past_every_failure_kind() {
    let mut repo = Repository::new();
    let records = vec![
        // succeeds, id 0
        ImportRecord::PersonRow { fields: fields(&["A", "", "X", "", "", "A X", "", "", ""]) },
        // empty required name: constraint violation
        ImportRecord::PersonRow { fields: fields(&["", "", "X", "", "", " X", "", "", ""]) },
        // unknown endpoint
        ImportRecord::RelationshipRow { fields: fields(&["PARENT", "0", "9", "", ""]) },
        // malformed type
        ImportRecord::RelationshipRow { fields: fields(&["COUSIN", "0", "0", "", ""]) },
        // succeeds, id 1
        ImportRecord::PersonRow { fields: fields(&["B", "", "Y", "", "", "B Y", "", "", ""]) },
        // succeeds: edge 0 -> 1
        ImportRecord::RelationshipRow { fields: fields(&["PARENT", "0", "1", "", ""]) },
    ];
    let report = repo.import_from_records(&records);
    assert_eq!(report.succeeded, 3);
    assert_eq!(report.failed, vec![
        (1, GraphError::ConstraintViolation),
        (2, GraphError::UnknownPerson),
        (3, GraphError::RecordFormatError),
    ]);
    let ids: Vec<u64> = repo
        .family_tree_ids(PersonId { value: 0 }, 1)
        .iter()
        .map(|i| i.value)
        .collect();
    assert_eq!(ids, vec![1]);
}

#[test]
fn person_records_from_text_with_header() {
    let text = "first,middle,last,maiden,nick,full,born,deceased,info\n\
                A,,X,,,A X,,,\n\
                \n\
                B,,Y,,,B Y,1900-01-02,,note\n";
    let records = person_records_from_text(text, true);
    assert_eq!(records.len(), 2);
    match &records[0] {
        ImportRecord::PersonRow { fields } => {
            assert_eq!(fields.len(), 9);
            assert_eq!(fields[0], "A");
        },
        _ => panic!("expected a person row"),
    }
    let mut repo = Repository::new();
    let report = repo.import_from_records(&records);
    assert_eq!(report.succeeded, 2);
    assert_eq!(report.failed, vec![]);
    let b = repo.get_person(PersonId { value: 1 }).unwrap();
    assert_eq!(b.born, Some(Date { year: 1900, month: 1, day: 2 }));
    assert_eq!(b.info, Some("note".to_string()));
}

#[test]
fn person_records_from_text_without_header() {
    let records = person_records_from_text("A,,X,,,A X,,,", false);
    assert_eq!(records.len(), 1);
}

#[test]
fn relationship_records_from_text_round() {
    let mut repo = Repository::new();
    let persons = person_records_from_text("A,,X,,,A X,,,\nB,,Y,,,B Y,,,", false);
    repo.import_from_records(&persons);
    let rels = relationship_records_from_text(
        "type,from,to,wedding,divorce\nPARENT,0,1,,\nMARRIAGE,0,1,1950-05-05,",
        true,
    );
    assert_eq!(rels.len(), 2);
    let report = repo.import_from_records(&rels);
    assert_eq!(report.succeeded, 2);
    assert_eq!(report.failed, vec![]);
}

#[test]
fn split_statements_skips_blanks_and_keeps_text_verbatim() {
    let parts = split_statements("CREATE (a); ;\nCREATE (b);;MATCH (c) RETURN c");
    assert_eq!(parts, vec![
        "CREATE (a)".to_string(),
        "\nCREATE (b)".to_string(),
        "MATCH (c) RETURN c".to_string(),
    ]);
    assert_eq!(split_statements("   \n ; \t "), Vec::<String>::new());
    assert_eq!(split_statements(""), Vec::<String>::new());
}

#[test]
fn split_statements_splits_inside_quotes_too() {
    // a known limitation of delimiter splitting: a semicolon inside a
    // string value still separates statements
    let parts = split_statements("CREATE (a { note: 'x; y' })");
    assert_eq!(parts.len(), 2);
    assert_eq!(parts[0], "CREATE (a { note: 'x");
}
