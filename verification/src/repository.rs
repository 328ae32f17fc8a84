//! The graph repository: the verified in-memory graph store of people and
//! typed edges. It owns the mapping from identifiers to people, assigns
//! identifiers on creation, and enforces the entity and edge invariants at
//! its narrow call contract: create and read people, add relationships.

use vstd::prelude::*;
use crate::domain::{
    GraphError, Person, PersonId, Relationship, person_constraints, relationship_constraints,
};
use crate::traversal::{bfs_reachable_ids, lemma_reachable_endpoint, reachable_within};

verus! {

/// Looks `id` up in a sequence of identifier-person entries, last entry
/// winning; with unique identifiers the position is irrelevant.
pub open spec fn spec_lookup(s: Seq<(u64, Person)>, id: u64) -> Option<Person>
    decreases s.len(),
{
    if s.len() == 0 {
        None
    } else if s.last().0 == id {
        Some(s.last().1)
    } else {
        spec_lookup(s.drop_last(), id)
    }
}

/// Whether some entry of `s` carries the identifier `id`.
pub open spec fn has_id(s: Seq<(u64, Person)>, id: u64) -> bool {
    exists|i: int| 0 <= i < s.len() && s[i].0 == id
}

proof fn lemma_lookup_is_some_has_id(s: Seq<(u64, Person)>, id: u64)
    ensures
        (spec_lookup(s, id) is Some) == has_id(s, id),
    decreases s.len(),
{
    if s.len() == 0 {
    } else if s.last().0 == id {
        assert(s[s.len() - 1].0 == id);
    } else {
        lemma_lookup_is_some_has_id(s.drop_last(), id);
        if has_id(s, id) {
            let i = choose|i: int| 0 <= i < s.len() && s[i].0 == id;
            assert(s.drop_last()[i] == s[i]);
        }
        if has_id(s.drop_last(), id) {
            let i = choose|i: int| 0 <= i < s.drop_last().len() && s.drop_last()[i].0 == id;
            assert(s[i] == s.drop_last()[i]);
        }
    }
}

proof fn lemma_lookup_push_same(s: Seq<(u64, Person)>, e: (u64, Person))
    ensures
        spec_lookup(s.push(e), e.0) == Some(e.1),
{
    assert(s.push(e).last() == e);
}

proof fn lemma_lookup_push_other(s: Seq<(u64, Person)>, e: (u64, Person), id: u64)
    requires
        id != e.0,
    ensures
        spec_lookup(s.push(e), id) == spec_lookup(s, id),
{
    assert(s.push(e).last() == e);
    assert(s.push(e).drop_last() =~= s);
}

proof fn lemma_lookup_index(s: Seq<(u64, Person)>, i: int)
    requires
        forall|a: int, b: int| 0 <= a < b < s.len() ==> s[a].0 != s[b].0,
        0 <= i < s.len(),
    ensures
        spec_lookup(s, s[i].0) == Some(s[i].1),
    decreases s.len(),
{
    if i == s.len() - 1 {
        assert(s.last() == s[i]);
    } else {
        assert(s.last().0 != s[i].0);
        assert(s.drop_last()[i] == s[i]);
        lemma_lookup_index(s.drop_last(), i);
    }
}

/// The state the creation of a person moves the repository through: the new
/// person stands under the freshly issued identifier, everything else is
/// unchanged.
pub open spec fn create_transition(pre: Repository, post: Repository, p: Person, id: PersonId) -> bool {
    person_constraints(p)
    && id.value == pre.spec_next_id()
    && post.spec_next_id() == pre.spec_next_id() + 1
    && post.entries() == pre.entries().push((id.value, p))
    && post.spec_edges() == pre.spec_edges()
}

/// The verified graph store: people keyed by store-assigned identifiers,
/// with the typed edges between them. Identifiers are issued from a counter
/// and never reused.
pub struct Repository {
    next_id: u64,
    persons: Vec<(u64, Person)>,
    edges: Vec<Relationship>,
}

impl Repository {
    /// The identifier the next created person will receive.
    pub closed spec fn spec_next_id(self) -> u64 {
        self.next_id
    }

    /// The stored people, in creation order, each under its identifier.
    pub closed spec fn entries(self) -> Seq<(u64, Person)> {
        self.persons@
    }

    /// The stored edges, in creation order.
    pub closed spec fn spec_edges(self) -> Seq<Relationship> {
        self.edges@
    }

    /// The person stored under `id`, if any.
    pub open spec fn spec_person(self, id: u64) -> Option<Person> {
        spec_lookup(self.entries(), id)
    }

    /// Whether `id` resolves to a stored person.
    pub open spec fn has_person(self, id: u64) -> bool {
        self.spec_person(id) is Some
    }

    /// The store invariant: identifiers are strictly increasing (so unique)
    /// and below the issue counter, every stored person meets the entity
    /// invariant, and every edge meets the edge invariant with both
    /// endpoints resolving to stored people.
    pub open spec fn wf(self) -> bool {
        (forall|a: int, b: int| 0 <= a < b < self.entries().len()
            ==> self.entries()[a].0 < self.entries()[b].0)
        && (forall|i: int| 0 <= i < self.entries().len()
            ==> self.entries()[i].0 < self.spec_next_id())
        && (forall|i: int| 0 <= i < self.entries().len()
            ==> person_constraints(#[trigger] self.entries()[i].1))
        && (forall|i: int| 0 <= i < self.spec_edges().len()
            ==> relationship_constraints(#[trigger] self.spec_edges()[i]))
        && (forall|i: int| 0 <= i < self.spec_edges().len()
            ==> self.has_person((#[trigger] self.spec_edges()[i]).spec_from_id().value)
                && self.has_person(self.spec_edges()[i].spec_to_id().value))
    }

    /// An empty store: no people, no edges, identifiers issued from zero.
    pub fn new() -> (r: Repository)
        ensures
            r.wf(),
            r.entries() =~= Seq::<(u64, Person)>::empty(),
            r.spec_edges() =~= Seq::<Relationship>::empty(),
            r.spec_next_id() == 0,
    {
        Repository { next_id: 0, persons: Vec::new(), edges: Vec::new() }
    }

    /// Stores a person and returns the store-assigned identifier. Fails
    /// with `ConstraintViolation`, and stores nothing, exactly when the
    /// person breaks the entity invariant.
    pub fn create_person(&mut self, p: &Person) -> (r: Result<PersonId, GraphError>)
        requires
            old(self).wf(),
            old(self).spec_next_id() < u64::MAX,
        ensures
            final(self).wf(),
            (r is Ok) == person_constraints(*p),
            (match r {
                Result::Ok(id) => {
                    &&& create_transition(*old(self), *final(self), *p, id)
                    &&& !old(self).has_person(id.value)
                    &&& final(self).spec_person(id.value) == Some(*p)
                    &&& forall|j: u64| j != id.value
                        ==> final(self).spec_person(j) == old(self).spec_person(j)
                },
                Result::Err(e) => e == GraphError::ConstraintViolation
                    && *final(self) == *old(self),
            }),
    {
        if !crate::domain::check_person_constraints(p) {
            return Err(GraphError::ConstraintViolation);
        }
        let id = self.next_id;
        let entry = (id, p.clone());
        proof {
            lemma_lookup_is_some_has_id(self.persons@, id);
            lemma_lookup_push_same(self.persons@, (id, *p));
            assert forall|j: u64| j != id implies
                spec_lookup(self.persons@.push((id, *p)), j) == spec_lookup(self.persons@, j) by {
                lemma_lookup_push_other(self.persons@, (id, *p), j);
            }
        }
        self.persons.push(entry);
        self.next_id = id + 1;
        proof {
            assert forall|i: int| 0 <= i < self.spec_edges().len()
                implies self.has_person((#[trigger] self.spec_edges()[i]).spec_from_id().value)
                    && self.has_person(self.spec_edges()[i].spec_to_id().value) by {
                let e = old(self).spec_edges()[i];
                assert(self.spec_edges()[i] == e);
                let f = e.spec_from_id().value;
                let t = e.spec_to_id().value;
                assert(old(self).has_person(f) && old(self).has_person(t));
                lemma_lookup_is_some_has_id(old(self).entries(), f);
                lemma_lookup_is_some_has_id(old(self).entries(), t);
                let a = choose|a: int| 0 <= a < old(self).entries().len()
                    && old(self).entries()[a].0 == f;
                let b = choose|b: int| 0 <= b < old(self).entries().len()
                    && old(self).entries()[b].0 == t;
                assert(old(self).entries()[a].0 < old(self).spec_next_id());
                assert(old(self).entries()[b].0 < old(self).spec_next_id());
                lemma_lookup_push_other(old(self).entries(), (id, *p), f);
                lemma_lookup_push_other(old(self).entries(), (id, *p), t);
                assert(self.entries() == old(self).entries().push((id, *p)));
            }
        }
        Ok(PersonId { value: id })
    }

    /// Reads the person stored under `id`. A never-issued or otherwise
    /// unknown identifier yields an absent value, never an error.
    pub fn get_person(&self, id: PersonId) -> (r: Option<Person>)
        requires
            self.wf(),
        ensures
            r == self.spec_person(id.value),
            id.value >= self.spec_next_id() ==> r is None,
    {
        let mut i: usize = 0;
        while i < self.persons.len()
            invariant
                self.wf(),
                0 <= i <= self.persons@.len(),
                forall|k: int| 0 <= k < i ==> self.persons@[k].0 != id.value,
            decreases self.persons@.len() - i,
        {
            if self.persons[i].0 == id.value {
                proof {
                    lemma_lookup_index(self.persons@, i as int);
                }
                return Some(self.persons[i].1.clone());
            }
            i += 1;
        }
        proof {
            lemma_lookup_is_some_has_id(self.persons@, id.value);
        }
        None
    }

    /// Reads every stored person, in creation order (ascending by
    /// identifier), so that repeated reads of a fixed store agree.
    pub fn get_all_persons(&self) -> (r: Vec<Person>)
        requires
            self.wf(),
        ensures
            r@.len() == self.entries().len(),
            forall|k: int| 0 <= k < r@.len() ==> r@[k] == self.entries()[k].1,
    {
        let mut out: Vec<Person> = Vec::new();
        let mut i: usize = 0;
        while i < self.persons.len()
            invariant
                0 <= i <= self.persons@.len(),
                out@.len() == i,
                forall|k: int| 0 <= k < i ==> out@[k] == self.persons@[k].1,
            decreases self.persons@.len() - i,
        {
            out.push(self.persons[i].1.clone());
            i += 1;
        }
        out
    }

    /// Resolves both endpoints of `rel` and records the typed edge. Fails
    /// with `UnknownPerson` when an endpoint does not resolve, else with
    /// `ConstraintViolation` when the edge breaks its invariant (a
    /// self-loop, or a divorce date before the wedding date); a failed
    /// call records nothing. Creation is not idempotent: a second call
    /// with identical arguments records a second, parallel edge.
    pub fn add_relationship(&mut self, rel: &Relationship) -> (r: Result<(), GraphError>)
        requires
            old(self).wf(),
        ensures
            final(self).wf(),
            final(self).entries() == old(self).entries(),
            final(self).spec_next_id() == old(self).spec_next_id(),
            (r is Ok) == (old(self).has_person(rel.spec_from_id().value)
                && old(self).has_person(rel.spec_to_id().value)
                && relationship_constraints(*rel)),
            (match r {
                Result::Ok(_) => final(self).spec_edges() == old(self).spec_edges().push(*rel),
                Result::Err(e) => {
                    &&& *final(self) == *old(self)
                    &&& (e == GraphError::UnknownPerson
                        || e == GraphError::ConstraintViolation)
                    &&& ((e == GraphError::UnknownPerson)
                        == !(old(self).has_person(rel.spec_from_id().value)
                            && old(self).has_person(rel.spec_to_id().value)))
                },
            }),
    {
        let from_known = self.get_person(rel.from_id()).is_some();
        let to_known = self.get_person(rel.to_id()).is_some();
        if !from_known || !to_known {
            return Err(GraphError::UnknownPerson);
        }
        if !crate::domain::check_relationship_constraints(rel) {
            return Err(GraphError::ConstraintViolation);
        }
        self.edges.push(*rel);
        proof {
            assert(self.spec_edges() == old(self).spec_edges().push(*rel));
            assert(self.entries() == old(self).entries());
            assert forall|i: int| 0 <= i < self.spec_edges().len()
                implies relationship_constraints(#[trigger] self.spec_edges()[i])
                    && self.has_person(self.spec_edges()[i].spec_from_id().value)
                    && self.has_person(self.spec_edges()[i].spec_to_id().value) by {
                if i < old(self).spec_edges().len() {
                    assert(self.spec_edges()[i] == old(self).spec_edges()[i]);
                    assert(relationship_constraints(old(self).spec_edges()[i]));
                    assert(old(self).has_person(
                        old(self).spec_edges()[i].spec_from_id().value));
                    assert(old(self).has_person(
                        old(self).spec_edges()[i].spec_to_id().value));
                } else {
                    assert(self.spec_edges()[i] == *rel);
                }
            }
        }
        Ok(())
    }

    /// The identifiers of every person reachable from `start` within
    /// `max_depth` undirected hops over the stored edges, the start itself
    /// excluded, each exactly once, in discovery order.
    pub fn family_tree_ids(&self, start: PersonId, max_depth: u64) -> (r: Vec<PersonId>)
        requires
            self.wf(),
        ensures
            forall|a: int, b: int| 0 <= a < b < r@.len() ==> r@[a].value != r@[b].value,
            forall|k: int| 0 <= k < r@.len()
                ==> reachable_within(self.spec_edges(), start.value,
                        (#[trigger] r@[k]).value, max_depth as nat)
                    && r@[k].value != start.value
                    && self.has_person(r@[k].value),
            forall|id: u64|
                #[trigger] reachable_within(self.spec_edges(), start.value, id,
                    max_depth as nat) && id != start.value
                ==> exists|k: int| 0 <= k < r@.len() && r@[k].value == id,
    {
        let raw = bfs_reachable_ids(&self.edges, start.value, max_depth);
        let mut out: Vec<PersonId> = Vec::new();
        let mut i: usize = 0;
        while i < raw.len()
            invariant
                0 <= i <= raw@.len(),
                out@.len() == i,
                forall|k: int| 0 <= k < i ==> (#[trigger] out@[k]).value == raw@[k],
            decreases raw@.len() - i,
        {
            out.push(PersonId { value: raw[i] });
            i += 1;
        }
        proof {
            assert forall|k: int| 0 <= k < out@.len()
                implies reachable_within(self.spec_edges(), start.value,
                    (#[trigger] out@[k]).value, max_depth as nat)
                    && out@[k].value != start.value
                    && self.has_person(out@[k].value) by {
                assert(out@[k].value == raw@[k]);
                lemma_reachable_endpoint(self.spec_edges(), start.value, raw@[k],
                    max_depth as nat);
                let e = choose|e: int| 0 <= e < self.spec_edges().len()
                    && ((#[trigger] self.spec_edges()[e]).spec_from_id().value == raw@[k]
                        || self.spec_edges()[e].spec_to_id().value == raw@[k]);
                assert(self.has_person(self.spec_edges()[e].spec_from_id().value));
                assert(self.has_person(self.spec_edges()[e].spec_to_id().value));
            }
            assert forall|id: u64|
                #[trigger] reachable_within(self.spec_edges(), start.value, id,
                    max_depth as nat) && id != start.value
                implies exists|k: int| 0 <= k < out@.len() && out@[k].value == id by {
                assert(raw@.contains(id));
                let k = choose|k: int| 0 <= k < raw@.len() && raw@[k] == id;
                assert(out@[k].value == id);
            }
        }
        out
    }

    /// Reads the family tree of `start`: the people reachable within
    /// `max_depth` undirected hops, the start excluded, each exactly once.
    /// An unknown start or a depth of zero yields an empty result, never
    /// an error.
    pub fn get_family_tree(&self, start: PersonId, max_depth: u64) -> (r: Vec<Person>)
        requires
            self.wf(),
        ensures
            exists|ids: Seq<u64>| {
                &&& ids.no_duplicates()
                &&& ids.len() == r@.len()
                &&& forall|k: int| 0 <= k < ids.len()
                    ==> reachable_within(self.spec_edges(), start.value, #[trigger] ids[k],
                            max_depth as nat)
                        && ids[k] != start.value
                        && self.spec_person(ids[k]) == Some(r@[k])
                &&& forall|id: u64|
                    #[trigger] reachable_within(self.spec_edges(), start.value, id,
                        max_depth as nat) && id != start.value
                    ==> ids.contains(id)
            },
    {
        let ids = self.family_tree_ids(start, max_depth);
        let mut out: Vec<Person> = Vec::new();
        let mut i: usize = 0;
        while i < ids.len()
            invariant
                self.wf(),
                0 <= i <= ids@.len(),
                out@.len() == i,
                forall|k: int| 0 <= k < ids@.len()
                    ==> self.has_person((#[trigger] ids@[k]).value),
                forall|k: int| 0 <= k < i
                    ==> self.spec_person(ids@[k].value) == Some(#[trigger] out@[k]),
            decreases ids@.len() - i,
        {
            match self.get_person(ids[i]) {
                Some(p) => {
                    out.push(p);
                },
                None => {
                    proof {
                        assert(self.has_person(ids@[i as int].value));
                        assert(false);
                    }
                },
            }
            i += 1;
        }
        proof {
            let gids = ids@.map_values(|p: PersonId| p.value);
            assert(gids.len() == ids@.len());
            assert forall|k: int| 0 <= k < gids.len()
                implies #[trigger] gids[k] == ids@[k].value by {}
            assert(gids.no_duplicates()) by {
                assert forall|a: int, b: int|
                    0 <= a < gids.len() && 0 <= b < gids.len() && a != b
                    implies gids[a] != gids[b] by {
                    if a < b {
                        assert(ids@[a].value != ids@[b].value);
                    } else {
                        assert(ids@[b].value != ids@[a].value);
                    }
                }
            }
            assert forall|id: u64|
                #[trigger] reachable_within(self.spec_edges(), start.value, id,
                    max_depth as nat) && id != start.value
                implies gids.contains(id) by {
                let k = choose|k: int| 0 <= k < ids@.len() && ids@[k].value == id;
                assert(gids[k] == id);
            }
            assert forall|k: int| 0 <= k < gids.len()
                implies reachable_within(self.spec_edges(), start.value, #[trigger] gids[k],
                        max_depth as nat)
                    && gids[k] != start.value
                    && self.spec_person(gids[k]) == Some(out@[k]) by {
                assert(gids[k] == ids@[k].value);
            }
        }
        out
    }
}

/// Round-trip law: a person stored by a successful create stands in the
/// store under the issued identifier, exactly as handed in, and no other
/// identifier resolves differently than before.
pub proof fn lemma_create_get_round_trip(pre: Repository, post: Repository, p: Person, id: PersonId)
    requires
        pre.wf(),
        create_transition(pre, post, p, id),
    ensures
        post.spec_person(id.value) == Some(p),
        forall|j: u64| j != id.value ==> post.spec_person(j) == pre.spec_person(j),
{
    lemma_lookup_push_same(pre.entries(), (id.value, p));
    assert forall|j: u64| j != id.value implies
        post.spec_person(j) == pre.spec_person(j) by {
        lemma_lookup_push_other(pre.entries(), (id.value, p), j);
    }
}

/// Absence law: an identifier the store has never issued resolves to
/// nothing.
pub proof fn lemma_unissued_is_absent(repo: Repository, id: u64)
    requires
        repo.wf(),
        id >= repo.spec_next_id(),
    ensures
        repo.spec_person(id) is None,
{
    lemma_lookup_is_some_has_id(repo.entries(), id);
}

} // verus!
