//! The domain model: people, the typed relationships between them, the
//! error taxonomy of the store operations, and the thin creation payloads
//! that callers hand in.

use vstd::prelude::*;
use crate::dates::{Date, valid_date};

verus! {

/// An opaque person identifier, assigned by the store on creation and never
/// chosen by a caller. Only equality and hashing are meaningful; it carries
/// no arithmetic.
#[derive(Clone, Copy, PartialEq, Eq, Hash, Structural, Debug)]
pub struct PersonId {
    pub value: u64,
}

/// One individual. All date fields are calendar dates; optional fields are
/// absent (`None`, "unknown") or present, where a present empty string means
/// "recorded as blank" and is distinct from absent.
#[derive(PartialEq, Eq, Debug)]
pub struct Person {
    pub first_name: String,
    pub middle_name: Option<String>,
    pub last_name: String,
    pub maiden_name: Option<String>,
    pub nick_name: Option<String>,
    pub full_name: String,
    pub born: Option<Date>,
    pub deceased: Option<Date>,
    pub info: Option<String>,
}

impl Clone for Person {
    /// A clone keeps every field exactly.
    fn clone(&self) -> (res: Self)
        ensures
            res == *self,
    {
        Person {
            first_name: self.first_name.clone(),
            middle_name: self.middle_name.clone(),
            last_name: self.last_name.clone(),
            maiden_name: self.maiden_name.clone(),
            nick_name: self.nick_name.clone(),
            full_name: self.full_name.clone(),
            born: self.born,
            deceased: self.deceased,
            info: self.info.clone(),
        }
    }
}

/// Whether an optional date is either absent or a real calendar date.
pub open spec fn opt_date_valid(a: Option<Date>) -> bool {
    match a {
        Some(d) => valid_date(d),
        None => true,
    }
}

/// Whether two optional dates, where both are present, are in order.
pub open spec fn opt_dates_ordered(a: Option<Date>, b: Option<Date>) -> bool {
    match (a, b) {
        (Some(x), Some(y)) => x.spec_le(y),
        _ => true,
    }
}

/// Whether each present date field of `p` is a real calendar date.
pub open spec fn valid_person_dates(p: Person) -> bool {
    opt_date_valid(p.born) && opt_date_valid(p.deceased)
}

/// The entity invariant of a `Person`: the required names are nonempty, each
/// present date is a real calendar date, and a deceased date does not precede
/// a born date when both are present.
pub open spec fn person_constraints(p: Person) -> bool {
    p.first_name@.len() > 0
    && p.last_name@.len() > 0
    && p.full_name@.len() > 0
    && opt_date_valid(p.born)
    && opt_date_valid(p.deceased)
    && opt_dates_ordered(p.born, p.deceased)
}

/// Checks the `Person` entity invariant.
pub fn check_person_constraints(p: &Person) -> (r: bool)
    ensures
        r == person_constraints(*p),
{
    let names_ok = !p.first_name.as_str().is_empty() && !p.last_name.as_str().is_empty()
        && !p.full_name.as_str().is_empty();
    let born_ok = match p.born {
        Some(b) => crate::dates::is_valid_date(&b),
        None => true,
    };
    let deceased_ok = match p.deceased {
        Some(d) => crate::dates::is_valid_date(&d),
        None => true,
    };
    let order_ok = match (p.born, p.deceased) {
        (Some(b), Some(d)) => b.le(&d),
        _ => true,
    };
    names_ok && born_ok && deceased_ok && order_ok
}

/// A typed edge between two existing people: either a directed parent-child
/// link or a (symmetric in meaning) marriage link carrying optional wedding
/// and divorce dates.
#[derive(Clone, Copy, PartialEq, Eq, Structural, Debug)]
pub enum Relationship {
    Parent { from_id: PersonId, to_id: PersonId },
    Marriage {
        from_id: PersonId,
        to_id: PersonId,
        wedding_date: Option<Date>,
        divorce_date: Option<Date>,
    },
}

impl Relationship {
    /// The identifier the edge starts from.
    pub open spec fn spec_from_id(self) -> PersonId {
        match self {
            Relationship::Parent { from_id, .. } => from_id,
            Relationship::Marriage { from_id, .. } => from_id,
        }
    }

    /// The identifier the edge points to.
    pub open spec fn spec_to_id(self) -> PersonId {
        match self {
            Relationship::Parent { to_id, .. } => to_id,
            Relationship::Marriage { to_id, .. } => to_id,
        }
    }

    pub fn from_id(&self) -> (r: PersonId)
        ensures
            r == self.spec_from_id(),
    {
        match self {
            Relationship::Parent { from_id, .. } => *from_id,
            Relationship::Marriage { from_id, .. } => *from_id,
        }
    }

    pub fn to_id(&self) -> (r: PersonId)
        ensures
            r == self.spec_to_id(),
    {
        match self {
            Relationship::Parent { to_id, .. } => *to_id,
            Relationship::Marriage { to_id, .. } => *to_id,
        }
    }
}

/// The edge invariant of a `Relationship`, beyond the existence of its
/// endpoints: no self-loop, each present date is a real calendar date, and a
/// divorce date does not precede a wedding date when both are present.
pub open spec fn relationship_constraints(r: Relationship) -> bool {
    r.spec_from_id() != r.spec_to_id()
    && (match r {
        Relationship::Parent { .. } => true,
        Relationship::Marriage { wedding_date, divorce_date, .. } => {
            opt_date_valid(wedding_date)
            && opt_date_valid(divorce_date)
            && opt_dates_ordered(wedding_date, divorce_date)
        },
    })
}

/// Checks the `Relationship` edge invariant.
pub fn check_relationship_constraints(r: &Relationship) -> (b: bool)
    ensures
        b == relationship_constraints(*r),
{
    if r.from_id().value == r.to_id().value {
        return false;
    }
    match r {
        Relationship::Parent { .. } => true,
        Relationship::Marriage { wedding_date, divorce_date, .. } => {
            let wedding_ok = match wedding_date {
                Some(w) => crate::dates::is_valid_date(w),
                None => true,
            };
            let divorce_ok = match divorce_date {
                Some(d) => crate::dates::is_valid_date(d),
                None => true,
            };
            let order_ok = match (wedding_date, divorce_date) {
                (Some(w), Some(d)) => w.le(d),
                _ => true,
            };
            wedding_ok && divorce_ok && order_ok
        },
    }
}

/// How an operation on the graph store fails. "Not found" on a lookup is an
/// absent value, never an error.
#[derive(Clone, Copy, PartialEq, Eq, Structural, Debug)]
pub enum GraphError {
    /// The store connection or transport failed.
    StoreUnavailable,
    /// A required field is missing or an entity invariant is broken.
    ConstraintViolation,
    /// A referenced identifier does not resolve to an existing person.
    UnknownPerson,
    /// A stored value cannot be decoded back into its expected form.
    DataCorruption,
    /// A malformed import record, reported per record within a batch.
    RecordFormatError,
}

/// The payload for creating a person with only the required names known.
#[derive(Debug, Default)]
pub struct PersonCreate {
    pub first_name: String,
    pub last_name: String,
}

/// How another person relates to a given person, as a creation payload
/// names it: as their father, mother, son or daughter.
#[derive(Clone, Copy, PartialEq, Eq, Structural, Debug)]
pub enum RelationType {
    FAR,
    MOR,
    SON,
    DOTTER,
}

/// The payload for linking an existing person to another by a named relation.
#[derive(Debug)]
pub struct RelationCreate {
    pub related_person_id: PersonId,
    pub relation_type: RelationType,
}

/// Expands a creation payload into a full `Person`: the full name is the
/// first and last name joined by one space, and every optional field is
/// unknown.
pub fn person_from_create(pc: &PersonCreate) -> (r: Person)
    ensures
        r.first_name@ == pc.first_name@,
        r.last_name@ == pc.last_name@,
        r.full_name@ == pc.first_name@ + " "@ + pc.last_name@,
        r.middle_name is None,
        r.maiden_name is None,
        r.nick_name is None,
        r.born is None,
        r.deceased is None,
        r.info is None,
{
    let full = pc.first_name.clone().concat(" ").concat(pc.last_name.as_str());
    Person {
        first_name: pc.first_name.clone(),
        middle_name: None,
        last_name: pc.last_name.clone(),
        maiden_name: None,
        nick_name: None,
        full_name: full,
        born: None,
        deceased: None,
        info: None,
    }
}

/// Turns a relation payload for `own_id` into the parent edge it denotes:
/// a father or mother is a parent of `own_id`; a son or daughter has
/// `own_id` as parent.
pub fn relationship_from_relation(own_id: PersonId, rc: &RelationCreate) -> (r: Relationship)
    ensures
        rc.relation_type == RelationType::FAR || rc.relation_type == RelationType::MOR
            ==> r == (Relationship::Parent { from_id: rc.related_person_id, to_id: own_id }),
        rc.relation_type == RelationType::SON || rc.relation_type == RelationType::DOTTER
            ==> r == (Relationship::Parent { from_id: own_id, to_id: rc.related_person_id }),
{
    match rc.relation_type {
        RelationType::FAR | RelationType::MOR => Relationship::Parent {
            from_id: rc.related_person_id,
            to_id: own_id,
        },
        RelationType::SON | RelationType::DOTTER => Relationship::Parent {
            from_id: own_id,
            to_id: rc.related_person_id,
        },
    }
}

} // verus!
