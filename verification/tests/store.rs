use genealogy::dates::Date;
use genealogy::domain::{
    GraphError, Person, PersonCreate, PersonId, RelationCreate, RelationType, Relationship,
    person_from_create, relationship_from_relation,
};
use genealogy::repository::Repository;

fn person(first: &str, last: &str) -> Person {
    Person {
        first_name: first.to_string(),
        middle_name: None,
        last_name: last.to_string(),
        maiden_name: None,
        nick_name: None,
        full_name: format!("{} {}", first, last),
        born: None,
        deceased: None,
        info: None,
    }
}

#[test]
fn create_get_round_trip_all_fields() {
    let mut repo = Repository::new();
    let p = Person {
        first_name: "Ada".to_string(),
        middle_name: Some("King".to_string()),
        last_name: "Lovelace".to_string(),
        maiden_name: Some("Byron".to_string()),
        nick_name: Some("".to_string()),
        full_name: "Ada King Lovelace".to_string(),
        born: Some(Date { year: 1815, month: 12, day: 10 }),
        deceased: Some(Date { year: 1852, month: 11, day: 27 }),
        info: Some("analyst".to_string()),
    };
    let id = repo.create_person(&p).expect("valid person");
    let got = repo.get_person(id).expect("present");
    assert_eq!(got, p);
}

#[test]
fn get_person_never_issued_is_absent() {
    let mut repo = Repository::new();
    assert_eq!(repo.get_person(PersonId { value: 0 }), None);
    let id = repo.create_person(&person("A", "B")).unwrap();
    assert_eq!(repo.get_person(PersonId { value: id.value + 1 }), None);
    assert_eq!(repo.get_person(PersonId { value: 7777 }), None);
}

#[test]
fn create_person_rejects_empty_required_names() {
    let mut repo = Repository::new();
    let mut p = person("A", "B");
    p.first_name = String::new();
    assert_eq!(repo.create_person(&p), Err(GraphError::ConstraintViolation));
    assert_eq!(repo.get_person(PersonId { value: 0 }), None);
}

#[test]
fn create_person_rejects_deceased_before_born() {
    let mut repo = Repository::new();
    let mut p = person("A", "B");
    p.born = Some(Date { year: 1900, month: 5, day: 2 });
    p.deceased = Some(Date { year: 1899, month: 1, day: 1 });
    assert_eq!(repo.create_person(&p), Err(GraphError::ConstraintViolation));
}

#[test]
fn add_relationship_unknown_endpoint_fails_and_adds_nothing() {
    let mut repo = Repository::new();
    let a = repo.create_person(&person("A", "X")).unwrap();
    let rel = Relationship::Parent { from_id: a, to_id: PersonId { value: 99 } };
    assert_eq!(repo.add_relationship(&rel), Err(GraphError::UnknownPerson));
    let rel2 = Relationship::Parent { from_id: PersonId { value: 99 }, to_id: a };
    assert_eq!(repo.add_relationship(&rel2), Err(GraphError::UnknownPerson));
    // no edge was recorded: nothing is reachable from a
    assert_eq!(repo.get_family_tree(a, 3).len(), 0);
}

#[test]
fn add_relationship_rejects_self_loop() {
    let mut repo = Repository::new();
    let a = repo.create_person(&person("A", "X")).unwrap();
    let rel = Relationship::Parent { from_id: a, to_id: a };
    assert_eq!(repo.add_relationship(&rel), Err(GraphError::ConstraintViolation));
}

#[test]
fn marriage_divorce_before_wedding_rejected() {
    let mut repo = Repository::new();
    let a = repo.create_person(&person("A", "X")).unwrap();
    let b = repo.create_person(&person("B", "Y")).unwrap();
    let rel = Relationship::Marriage {
        from_id: a,
        to_id: b,
        wedding_date: Some(Date { year: 1990, month: 6, day: 15 }),
        divorce_date: Some(Date { year: 1985, month: 1, day: 1 }),
    };
    assert_eq!(repo.add_relationship(&rel), Err(GraphError::ConstraintViolation));
    let ok = Relationship::Marriage {
        from_id: a,
        to_id: b,
        wedding_date: Some(Date { year: 1990, month: 6, day: 15 }),
        divorce_date: Some(Date { year: 1995, month: 1, day: 1 }),
    };
    assert_eq!(repo.add_relationship(&ok), Ok(()));
}

#[test]
fn family_tree_three_generation_chain() {
    let mut repo = Repository::new();
    let a = repo.create_person(&person("A", "X")).unwrap();
    let b = repo.create_person(&person("B", "X")).unwrap();
    let c = repo.create_person(&person("C", "X")).unwrap();
    repo.add_relationship(&Relationship::Parent { from_id: a, to_id: b }).unwrap();
    repo.add_relationship(&Relationship::Parent { from_id: b, to_id: c }).unwrap();
    // one hop from the middle: both neighbours, the start excluded
    let mut ids: Vec<u64> = repo.family_tree_ids(b, 1).iter().map(|i| i.value).collect();
    ids.sort();
    assert_eq!(ids, vec![a.value, c.value]);
    // zero hops: empty
    assert_eq!(repo.family_tree_ids(b, 0).len(), 0);
    // from an end, two hops reach everything
    let mut ids2: Vec<u64> = repo.family_tree_ids(a, 2).iter().map(|i| i.value).collect();
    ids2.sort();
    assert_eq!(ids2, vec![b.value, c.value]);
    // persons come back deduplicated and without the start
    let tree = repo.get_family_tree(b, 1);
    assert_eq!(tree.len(), 2);
    assert!(tree.iter().any(|p| p.first_name == "A"));
    assert!(tree.iter().any(|p| p.first_name == "C"));
}

#[test]
fn family_tree_deduplicates_diamond() {
    let mut repo = Repository::new();
    let a = repo.create_person(&person("A", "X")).unwrap();
    let b = repo.create_person(&person("B", "X")).unwrap();
    let c = repo.create_person(&person("C", "X")).unwrap();
    let d = repo.create_person(&person("D", "X")).unwrap();
    // two distinct two-hop paths from a to d: a-b-d and a-c-d
    repo.add_relationship(&Relationship::Parent { from_id: a, to_id: b }).unwrap();
    repo.add_relationship(&Relationship::Parent { from_id: a, to_id: c }).unwrap();
    repo.add_relationship(&Relationship::Parent { from_id: b, to_id: d }).unwrap();
    repo.add_relationship(&Relationship::Parent { from_id: c, to_id: d }).unwrap();
    let ids: Vec<u64> = repo.family_tree_ids(a, 2).iter().map(|i| i.value).collect();
    assert_eq!(ids.iter().filter(|v| **v == d.value).count(), 1);
    let mut sorted = ids.clone();
    sorted.sort();
    assert_eq!(sorted, vec![b.value, c.value, d.value]);
}

#[test]
fn family_tree_depth_beyond_diameter_is_stable() {
    let mut repo = Repository::new();
    let a = repo.create_person(&person("A", "X")).unwrap();
    let b = repo.create_person(&person("B", "X")).unwrap();
    let c = repo.create_person(&person("C", "X")).unwrap();
    repo.add_relationship(&Relationship::Parent { from_id: a, to_id: b }).unwrap();
    repo.add_relationship(&Relationship::Parent { from_id: b, to_id: c }).unwrap();
    let mut ids: Vec<u64> = repo.family_tree_ids(a, 50).iter().map(|i| i.value).collect();
    ids.sort();
    assert_eq!(ids, vec![b.value, c.value]);
}

#[test]
fn family_tree_unknown_start_is_empty() {
    let mut repo = Repository::new();
    let a = repo.create_person(&person("A", "X")).unwrap();
    let b = repo.create_person(&person("B", "X")).unwrap();
    repo.add_relationship(&Relationship::Parent { from_id: a, to_id: b }).unwrap();
    assert_eq!(repo.get_family_tree(PersonId { value: 42 }, 3).len(), 0);
}

#[test]
fn family_tree_crosses_marriage_edges_undirected() {
    let mut repo = Repository::new();
    let a = repo.create_person(&person("A", "X")).unwrap();
    let b = repo.create_person(&person("B", "X")).unwrap();
    repo.add_relationship(&Relationship::Marriage {
        from_id: b,
        to_id: a,
        wedding_date: None,
        divorce_date: None,
    }).unwrap();
    // the edge points b -> a, but traversal follows it from a too
    let ids: Vec<u64> = repo.family_tree_ids(a, 1).iter().map(|i| i.value).collect();
    assert_eq!(ids, vec![b.value]);
}

#[test]
fn get_all_persons_in_creation_order() {
    let mut repo = Repository::new();
    repo.create_person(&person("A", "X")).unwrap();
    repo.create_person(&person("B", "Y")).unwrap();
    repo.create_person(&person("C", "Z")).unwrap();
    let all = repo.get_all_persons();
    let names: Vec<&str> = all.iter().map(|p| p.first_name.as_str()).collect();
    assert_eq!(names, vec!["A", "B", "C"]);
}

#[test]
fn person_from_create_joins_full_name() {
    let pc = PersonCreate { first_name: "Grace".to_string(), last_name: "Hopper".to_string() };
    let p = person_from_create(&pc);
    assert_eq!(p.full_name, "Grace Hopper");
    assert_eq!(p.first_name, "Grace");
    assert_eq!(p.last_name, "Hopper");
    assert_eq!(p.middle_name, None);
    assert_eq!(p.born, None);
}

#[test]
fn relationship_from_relation_orients_parent_edge() {
    let own = PersonId { value: 5 };
    let related = PersonId { value: 9 };
    let far = relationship_from_relation(own, &RelationCreate {
        related_person_id: related,
        relation_type: RelationType::FAR,
    });
    assert_eq!(far, Relationship::Parent { from_id: related, to_id: own });
    let son = relationship_from_relation(own, &RelationCreate {
        related_person_id: related,
        relation_type: RelationType::SON,
    });
    assert_eq!(son, Relationship::Parent { from_id: own, to_id: related });
}
