//! Parameterized store queries and row mapping: the text of each graph
//! query is a fixed constant — values travel only as named parameters,
//! never interpolated into the text — and rows read back from the store
//! are mapped into domain entities, rejecting undecodable dates.

use vstd::prelude::*;
use crate::dates::{spec_format_date, spec_parse_date, format_date, parse_date};
use crate::domain::{GraphError, Person, PersonId, Relationship, valid_person_dates};

verus! {

/// A value bound to a named query parameter. An absent value is the
/// store's native null marker, distinct from an empty text.
pub enum ParamValue {
    Text(String),
    Integer(u64),
    Absent,
}

/// Whether the parameter `q` binds `name` to exactly the text `v`.
pub open spec fn param_text(q: (String, ParamValue), name: Seq<char>, v: Seq<char>) -> bool {
    q.0@ == name && (match q.1 {
        ParamValue::Text(t) => t@ == v,
        _ => false,
    })
}

/// Whether the parameter `q` binds `name` to the text `v` when present,
/// and to the null marker when absent.
pub open spec fn param_opt(q: (String, ParamValue), name: Seq<char>, v: Option<Seq<char>>) -> bool {
    q.0@ == name && (match (q.1, v) {
        (ParamValue::Text(t), Some(x)) => t@ == x,
        (ParamValue::Absent, None) => true,
        _ => false,
    })
}

/// Whether the parameter `q` binds `name` to the integer `v`.
pub open spec fn param_int(q: (String, ParamValue), name: Seq<char>, v: u64) -> bool {
    q.0@ == name && (match q.1 {
        ParamValue::Integer(x) => x == v,
        _ => false,
    })
}

/// The view of an optional text field, an absent field staying absent.
pub open spec fn opt_view(o: Option<String>) -> Option<Seq<char>> {
    match o {
        Some(s) => Some(s@),
        None => None,
    }
}

/// The ISO text of an optional date, an absent date staying absent.
pub open spec fn opt_date_text(o: Option<crate::dates::Date>) -> Option<Seq<char>> {
    match o {
        Some(d) => Some(spec_format_date(d)),
        None => None,
    }
}

fn opt_text_param(name: &str, v: &Option<String>) -> (r: (String, ParamValue))
    ensures
        param_opt(r, name@, opt_view(*v)),
{
    match v {
        Some(s) => (name.to_owned(), ParamValue::Text(s.clone())),
        None => (name.to_owned(), ParamValue::Absent),
    }
}

fn opt_date_param(name: &str, v: &Option<crate::dates::Date>) -> (r: (String, ParamValue))
    requires
        crate::domain::opt_date_valid(*v),
    ensures
        param_opt(r, name@, opt_date_text(*v)),
{
    match v {
        Some(d) => (name.to_owned(), ParamValue::Text(format_date(d))),
        None => (name.to_owned(), ParamValue::Absent),
    }
}

/// Builds the person-creation query: a constant text and one named
/// parameter per attribute, dates in their ISO text form, absent values
/// as the null marker.
pub fn create_person_query(p: &Person) -> (r: (String, Vec<(String, ParamValue)>))
    requires
        valid_person_dates(*p),
    ensures
        r.0@ == spec_create_person_query_text(),
        r.1@.len() == 9,
        param_text(r.1@[0], "firstName"@, p.first_name@),
        param_opt(r.1@[1], "middleName"@, opt_view(p.middle_name)),
        param_text(r.1@[2], "lastName"@, p.last_name@),
        param_opt(r.1@[3], "maidenName"@, opt_view(p.maiden_name)),
        param_opt(r.1@[4], "nickName"@, opt_view(p.nick_name)),
        param_text(r.1@[5], "fullName"@, p.full_name@),
        param_opt(r.1@[6], "born"@, opt_date_text(p.born)),
        param_opt(r.1@[7], "deceased"@, opt_date_text(p.deceased)),
        param_opt(r.1@[8], "info"@, opt_view(p.info)),
{
    let text = "CREATE (p:Person { firstName: $firstName, middleName: $middleName, lastName: $lastName, maidenName: $maidenName, nickName: $nickName, fullName: $fullName, born: $born, deceased: $deceased, info: $info }) RETURN id(p)";
    let mut params: Vec<(String, ParamValue)> = Vec::new();
    params.push(("firstName".to_owned(), ParamValue::Text(p.first_name.clone())));
    params.push(opt_text_param("middleName", &p.middle_name));
    params.push(("lastName".to_owned(), ParamValue::Text(p.last_name.clone())));
    params.push(opt_text_param("maidenName", &p.maiden_name));
    params.push(opt_text_param("nickName", &p.nick_name));
    params.push(("fullName".to_owned(), ParamValue::Text(p.full_name.clone())));
    params.push(opt_date_param("born", &p.born));
    params.push(opt_date_param("deceased", &p.deceased));
    params.push(opt_text_param("info", &p.info));
    (text.to_owned(), params)
}

/// The constant text of the person-creation query.
pub open spec fn spec_create_person_query_text() -> Seq<char> {
    "CREATE (p:Person { firstName: $firstName, middleName: $middleName, lastName: $lastName, maidenName: $maidenName, nickName: $nickName, fullName: $fullName, born: $born, deceased: $deceased, info: $info }) RETURN id(p)"@
}

/// Builds the person lookup query: a constant text with the identifier
/// as its only parameter.
pub fn get_person_query(id: PersonId) -> (r: (String, Vec<(String, ParamValue)>))
    ensures
        r.0@ == spec_get_person_query_text(),
        r.1@.len() == 1,
        param_int(r.1@[0], "id"@, id.value),
{
    let text = "MATCH (p:Person) WHERE id(p) = $id RETURN p.firstName, p.middleName, p.lastName, p.maidenName, p.nickName, p.fullName, p.born, p.deceased, p.info";
    let mut params: Vec<(String, ParamValue)> = Vec::new();
    params.push(("id".to_owned(), ParamValue::Integer(id.value)));
    (text.to_owned(), params)
}

/// The constant text of the person lookup query.
pub open spec fn spec_get_person_query_text() -> Seq<char> {
    "MATCH (p:Person) WHERE id(p) = $id RETURN p.firstName, p.middleName, p.lastName, p.maidenName, p.nickName, p.fullName, p.born, p.deceased, p.info"@
}

/// Builds the edge-creation query for a relationship: one constant text
/// per edge kind, the endpoints and any marriage dates as parameters.
pub fn add_relationship_query(rel: &Relationship) -> (r: (String, Vec<(String, ParamValue)>))
    requires
        crate::domain::relationship_constraints(*rel),
    ensures
        (match *rel {
            Relationship::Parent { from_id, to_id } => {
                &&& r.0@ == spec_parent_edge_query_text()
                &&& r.1@.len() == 2
                &&& param_int(r.1@[0], "from_id"@, from_id.value)
                &&& param_int(r.1@[1], "to_id"@, to_id.value)
            },
            Relationship::Marriage { from_id, to_id, wedding_date, divorce_date } => {
                &&& r.0@ == spec_marriage_edge_query_text()
                &&& r.1@.len() == 4
                &&& param_int(r.1@[0], "from_id"@, from_id.value)
                &&& param_int(r.1@[1], "to_id"@, to_id.value)
                &&& param_opt(r.1@[2], "wedding_date"@, opt_date_text(wedding_date))
                &&& param_opt(r.1@[3], "divorce_date"@, opt_date_text(divorce_date))
            },
        }),
{
    match rel {
        Relationship::Parent { from_id, to_id } => {
            let text = "MATCH (parent:Person), (child:Person) WHERE id(parent) = $from_id AND id(child) = $to_id CREATE (parent)-[:PARENT_OF]->(child)";
            let mut params: Vec<(String, ParamValue)> = Vec::new();
            params.push(("from_id".to_owned(), ParamValue::Integer(from_id.value)));
            params.push(("to_id".to_owned(), ParamValue::Integer(to_id.value)));
            (text.to_owned(), params)
        },
        Relationship::Marriage { from_id, to_id, wedding_date, divorce_date } => {
            let text = "MATCH (p1:Person), (p2:Person) WHERE id(p1) = $from_id AND id(p2) = $to_id CREATE (p1)-[:MARRIED_TO { wedding_date: $wedding_date, divorce_date: $divorce_date }]->(p2)";
            let mut params: Vec<(String, ParamValue)> = Vec::new();
            params.push(("from_id".to_owned(), ParamValue::Integer(from_id.value)));
            params.push(("to_id".to_owned(), ParamValue::Integer(to_id.value)));
            params.push(opt_date_param("wedding_date", wedding_date));
            params.push(opt_date_param("divorce_date", divorce_date));
            (text.to_owned(), params)
        },
    }
}

/// The constant text of the parent-edge creation query.
pub open spec fn spec_parent_edge_query_text() -> Seq<char> {
    "MATCH (parent:Person), (child:Person) WHERE id(parent) = $from_id AND id(child) = $to_id CREATE (parent)-[:PARENT_OF]->(child)"@
}

/// The constant text of the marriage-edge creation query.
pub open spec fn spec_marriage_edge_query_text() -> Seq<char> {
    "MATCH (p1:Person), (p2:Person) WHERE id(p1) = $from_id AND id(p2) = $to_id CREATE (p1)-[:MARRIED_TO { wedding_date: $wedding_date, divorce_date: $divorce_date }]->(p2)"@
}

/// Builds the family-tree query: a constant text matching every person
/// up to three hops away — the default traversal depth — in either edge
/// direction, the start as its only parameter, duplicates removed by the
/// store.
pub fn family_tree_query(person_id: PersonId) -> (r: (String, Vec<(String, ParamValue)>))
    ensures
        r.0@ == spec_family_tree_query_text(),
        r.1@.len() == 1,
        param_int(r.1@[0], "person_id"@, person_id.value),
{
    let text = "MATCH (p:Person)-[*1..3]-(relative:Person) WHERE id(p) = $person_id RETURN DISTINCT relative";
    let mut params: Vec<(String, ParamValue)> = Vec::new();
    params.push(("person_id".to_owned(), ParamValue::Integer(person_id.value)));
    (text.to_owned(), params)
}

/// The constant text of the family-tree query.
pub open spec fn spec_family_tree_query_text() -> Seq<char> {
    "MATCH (p:Person)-[*1..3]-(relative:Person) WHERE id(p) = $person_id RETURN DISTINCT relative"@
}

/// Builds the query reading every person node: a constant text with no
/// parameters.
pub fn get_all_persons_query() -> (r: String)
    ensures
        r@ == spec_get_all_persons_query_text(),
{
    let text = "MATCH (p:Person) RETURN p.firstName, p.middleName, p.lastName, p.maidenName, p.nickName, p.fullName, p.born, p.deceased, p.info";
    text.to_owned()
}

/// The constant text of the all-persons query.
pub open spec fn spec_get_all_persons_query_text() -> Seq<char> {
    "MATCH (p:Person) RETURN p.firstName, p.middleName, p.lastName, p.maidenName, p.nickName, p.fullName, p.born, p.deceased, p.info"@
}

/// One row read back from the store for a person node: each named
/// column as the store returned it, an absent property as `None`.
pub struct PersonRow {
    pub first_name: Option<String>,
    pub middle_name: Option<String>,
    pub last_name: Option<String>,
    pub maiden_name: Option<String>,
    pub nick_name: Option<String>,
    pub full_name: Option<String>,
    pub born: Option<String>,
    pub deceased: Option<String>,
    pub info: Option<String>,
}

/// Whether a stored date column decodes: absent, or a well-formed ISO
/// date text.
pub open spec fn date_column_ok(o: Option<String>) -> bool {
    match o {
        None => true,
        Some(s) => spec_parse_date(s@) is Some,
    }
}

/// The text a required name column yields: the stored text, or empty
/// where the store held nothing.
pub open spec fn name_or_empty(o: Option<String>) -> Seq<char> {
    match o {
        Some(s) => s@,
        None => Seq::<char>::empty(),
    }
}

fn required_name(o: Option<String>) -> (r: String)
    ensures
        r@ == name_or_empty(o),
{
    match o {
        Some(s) => s,
        None => String::new(),
    }
}

/// Maps a stored row back into a person. Fails with `DataCorruption`
/// exactly when a stored date property cannot be decoded back into a
/// calendar date; a missing name column is read as empty text.
pub fn person_from_row(row: PersonRow) -> (r: Result<Person, GraphError>)
    ensures
        (r is Ok) == (date_column_ok(row.born) && date_column_ok(row.deceased)),
        r matches Err(e) ==> e == GraphError::DataCorruption,
        r matches Ok(p) ==> {
            &&& p.first_name@ == name_or_empty(row.first_name)
            &&& p.middle_name == row.middle_name
            &&& p.last_name@ == name_or_empty(row.last_name)
            &&& p.maiden_name == row.maiden_name
            &&& p.nick_name == row.nick_name
            &&& p.full_name@ == name_or_empty(row.full_name)
            &&& (match (row.born, p.born) {
                (None, None) => true,
                (Some(s), b) => spec_parse_date(s@) == b && b is Some,
                _ => false,
            })
            &&& (match (row.deceased, p.deceased) {
                (None, None) => true,
                (Some(s), b) => spec_parse_date(s@) == b && b is Some,
                _ => false,
            })
            &&& p.info == row.info
        },
{
    let born = match &row.born {
        None => None,
        Some(s) => match parse_date(s.as_str()) {
            Some(d) => Some(d),
            None => {
                return Err(GraphError::DataCorruption);
            },
        },
    };
    let deceased = match &row.deceased {
        None => None,
        Some(s) => match parse_date(s.as_str()) {
            Some(d) => Some(d),
            None => {
                return Err(GraphError::DataCorruption);
            },
        },
    };
    Ok(Person {
        first_name: required_name(row.first_name),
        middle_name: row.middle_name,
        last_name: required_name(row.last_name),
        maiden_name: row.maiden_name,
        nick_name: row.nick_name,
        full_name: required_name(row.full_name),
        born,
        deceased,
        info: row.info,
    })
}

} // verus!
