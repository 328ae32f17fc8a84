//! Record import adapters: turning delimited text rows and statement
//! scripts into import records, parsing the records into domain entities,
//! and feeding them through the repository as one batch that survives
//! per-record failures.

use vstd::prelude::*;
use crate::dates::{Date, spec_parse_date, parse_date};
use crate::domain::{GraphError, Person, PersonId, Relationship, relationship_constraints};
use crate::repository::{Repository, create_transition};
use crate::text::{spec_is_blank, spec_parse_u64, spec_split, is_blank, parse_u64, split_on};

verus! {

/// One row from an external source, destined to become a person or a
/// relationship; it carries the raw column values.
pub enum ImportRecord {
    PersonRow { fields: Vec<String> },
    RelationshipRow { fields: Vec<String> },
}

/// What an optional date column holds: absent when the column is empty,
/// a date when it parses, and nothing at all when it is malformed.
pub open spec fn spec_opt_date_field(f: Seq<char>) -> Option<Option<Date>> {
    if f.len() == 0 {
        Some(None)
    } else {
        match spec_parse_date(f) {
            Some(d) => Some(Some(d)),
            None => None,
        }
    }
}

fn parse_opt_date_field(f: &String) -> (r: Option<Option<Date>>)
    ensures
        r == spec_opt_date_field(f@),
{
    if f.as_str().is_empty() {
        Some(None)
    } else {
        match parse_date(f.as_str()) {
            Some(d) => Some(Some(d)),
            None => None,
        }
    }
}

/// Whether `o` holds exactly the text `v`. A present empty text is
/// "recorded as blank" and distinct from absent.
pub open spec fn opt_string_is(o: Option<String>, v: Seq<char>) -> bool {
    match o {
        Some(s) => s@ == v,
        None => false,
    }
}

/// A person row is well-formed when it has exactly the nine columns and
/// each date column is empty or a well-formed date.
pub open spec fn person_fields_wellformed(fs: Seq<Seq<char>>) -> bool {
    fs.len() == 9
    && spec_opt_date_field(fs[6]) is Some
    && spec_opt_date_field(fs[7]) is Some
}

/// Whether the person `p` carries exactly what the nine columns spell:
/// names and free text as given (an empty column is recorded as blank),
/// dates as parsed, an empty date column as unknown.
pub open spec fn person_record_matches(fs: Seq<Seq<char>>, p: Person) -> bool {
    p.first_name@ == fs[0]
    && opt_string_is(p.middle_name, fs[1])
    && p.last_name@ == fs[2]
    && opt_string_is(p.maiden_name, fs[3])
    && opt_string_is(p.nick_name, fs[4])
    && p.full_name@ == fs[5]
    && spec_opt_date_field(fs[6]) == Some(p.born)
    && spec_opt_date_field(fs[7]) == Some(p.deceased)
    && opt_string_is(p.info, fs[8])
}

/// The entity invariant of a person row, stated over its columns.
pub open spec fn person_fields_constraints(fs: Seq<Seq<char>>) -> bool {
    fs[0].len() > 0
    && fs[2].len() > 0
    && fs[5].len() > 0
    && crate::domain::opt_date_valid(spec_opt_date_field(fs[6]).unwrap())
    && crate::domain::opt_date_valid(spec_opt_date_field(fs[7]).unwrap())
    && crate::domain::opt_dates_ordered(
        spec_opt_date_field(fs[6]).unwrap(),
        spec_opt_date_field(fs[7]).unwrap())
}

/// Parses the nine-column person row layout: `first_name, middle_name,
/// last_name, maiden_name, nick_name, full_name, born, deceased, info`.
/// A column present but empty is recorded as blank, never as unknown;
/// missing columns or a malformed date column fail the record.
pub fn parse_person_record(fields: &Vec<String>) -> (r: Result<Person, GraphError>)
    ensures
        (r is Ok) == person_fields_wellformed(fields@.map_values(|f: String| f@)),
        r matches Err(e) ==> e == GraphError::RecordFormatError,
        r matches Ok(p) ==> person_record_matches(fields@.map_values(|f: String| f@), p),
{
    let ghost fs = fields@.map_values(|f: String| f@);
    if fields.len() != 9 {
        return Err(GraphError::RecordFormatError);
    }
    let born = match parse_opt_date_field(&fields[6]) {
        Some(b) => b,
        None => {
            return Err(GraphError::RecordFormatError);
        },
    };
    let deceased = match parse_opt_date_field(&fields[7]) {
        Some(d) => d,
        None => {
            return Err(GraphError::RecordFormatError);
        },
    };
    let p = Person {
        first_name: fields[0].clone(),
        middle_name: Some(fields[1].clone()),
        last_name: fields[2].clone(),
        maiden_name: Some(fields[3].clone()),
        nick_name: Some(fields[4].clone()),
        full_name: fields[5].clone(),
        born,
        deceased,
        info: Some(fields[8].clone()),
    };
    proof {
        assert(fs[0] == fields@[0]@ && fs[1] == fields@[1]@ && fs[2] == fields@[2]@
            && fs[3] == fields@[3]@ && fs[4] == fields@[4]@ && fs[5] == fields@[5]@
            && fs[6] == fields@[6]@ && fs[7] == fields@[7]@ && fs[8] == fields@[8]@);
    }
    Ok(p)
}

/// What the five-column relationship row spells: a parent or marriage
/// edge between two numeric identifiers, with optional marriage dates.
pub open spec fn spec_parse_relationship(fs: Seq<Seq<char>>) -> Option<Relationship> {
    if fs.len() != 5 {
        None
    } else if fs[0] == "PARENT"@ {
        match (spec_parse_u64(fs[1]), spec_parse_u64(fs[2])) {
            (Some(f), Some(t)) => Some(Relationship::Parent {
                from_id: PersonId { value: f },
                to_id: PersonId { value: t },
            }),
            _ => None,
        }
    } else if fs[0] == "MARRIAGE"@ {
        match (spec_parse_u64(fs[1]), spec_parse_u64(fs[2]),
            spec_opt_date_field(fs[3]), spec_opt_date_field(fs[4])) {
            (Some(f), Some(t), Some(w), Some(dv)) => Some(Relationship::Marriage {
                from_id: PersonId { value: f },
                to_id: PersonId { value: t },
                wedding_date: w,
                divorce_date: dv,
            }),
            _ => None,
        }
    } else {
        None
    }
}

/// Parses the five-column relationship row layout: `relationship_type,
/// from_id, to_id, wedding_date, divorce_date`. The type is `PARENT` or
/// `MARRIAGE`, case-sensitive; anything else fails the record. A parent
/// row ignores the date columns.
pub fn parse_relationship_record(fields: &Vec<String>) -> (r: Result<Relationship, GraphError>)
    ensures
        (match r {
            Result::Ok(rel) => spec_parse_relationship(fields@.map_values(|f: String| f@))
                == Some(rel),
            Result::Err(e) => spec_parse_relationship(fields@.map_values(|f: String| f@)) is None
                && e == GraphError::RecordFormatError,
        }),
{
    let ghost fs = fields@.map_values(|f: String| f@);
    if fields.len() != 5 {
        return Err(GraphError::RecordFormatError);
    }
    proof {
        assert(fs[0] == fields@[0]@ && fs[1] == fields@[1]@ && fs[2] == fields@[2]@
            && fs[3] == fields@[3]@ && fs[4] == fields@[4]@);
    }
    let pat_parent = String::from_str("PARENT");
    let pat_marriage = String::from_str("MARRIAGE");
    if fields[0] == pat_parent {
        match (parse_u64(fields[1].as_str()), parse_u64(fields[2].as_str())) {
            (Some(f), Some(t)) => Ok(Relationship::Parent {
                from_id: PersonId { value: f },
                to_id: PersonId { value: t },
            }),
            _ => Err(GraphError::RecordFormatError),
        }
    } else if fields[0] == pat_marriage {
        match (parse_u64(fields[1].as_str()), parse_u64(fields[2].as_str()),
            parse_opt_date_field(&fields[3]), parse_opt_date_field(&fields[4])) {
            (Some(f), Some(t), Some(w), Some(dv)) => Ok(Relationship::Marriage {
                from_id: PersonId { value: f },
                to_id: PersonId { value: t },
                wedding_date: w,
                divorce_date: dv,
            }),
            _ => Err(GraphError::RecordFormatError),
        }
    } else {
        Err(GraphError::RecordFormatError)
    }
}

/// The non-blank rows of a delimited text, split on line breaks.
pub open spec fn spec_rows(text: Seq<char>) -> Seq<Seq<char>> {
    spec_split(text, '\n').filter(|l: Seq<char>| !spec_is_blank(l))
}

/// The non-blank statements of a semicolon-separated script.
pub open spec fn spec_statements(text: Seq<char>) -> Seq<Seq<char>> {
    spec_split(text, ';').filter(|l: Seq<char>| !spec_is_blank(l))
}

fn keep_nonblank(pieces: Vec<String>) -> (r: Vec<String>)
    ensures
        r@.map_values(|t: String| t@)
            == pieces@.map_values(|t: String| t@).filter(|l: Seq<char>| !spec_is_blank(l)),
{
    let ghost all = pieces@.map_values(|t: String| t@);
    let mut out: Vec<String> = Vec::new();
    let mut i: usize = 0;
    proof {
        assert(all.take(0) =~= Seq::<Seq<char>>::empty());
        reveal(Seq::filter);
    }
    while i < pieces.len()
        invariant
            0 <= i <= pieces@.len(),
            all == pieces@.map_values(|t: String| t@),
            out@.map_values(|t: String| t@)
                == all.take(i as int).filter(|l: Seq<char>| !spec_is_blank(l)),
        decreases pieces@.len() - i,
    {
        let keep = !is_blank(pieces[i].as_str());
        proof {
            assert(all.take(i + 1) =~= all.take(i as int).push(all[i as int]));
            all.take(i as int).lemma_filter_push(all[i as int], |l: Seq<char>| !spec_is_blank(l));
            assert(all[i as int] == pieces@[i as int]@);
        }
        if keep {
            let piece = pieces[i].clone();
            proof {
                assert(out@.push(piece).map_values(|t: String| t@)
                    =~= out@.map_values(|t: String| t@).push(piece@));
            }
            out.push(piece);
        }
        i += 1;
    }
    proof {
        assert(all.take(pieces@.len() as int) =~= all);
    }
    out
}

/// Splits a text into its non-blank lines.
pub fn split_rows(text: &str) -> (r: Vec<String>)
    ensures
        r@.map_values(|t: String| t@) == spec_rows(text@),
{
    keep_nonblank(split_on(text, '\n'))
}

/// Splits a statement script on semicolons into its non-blank statements,
/// kept verbatim and in order. A semicolon inside a string value is not
/// recognized as text; it splits the statement like any other.
pub fn split_statements(text: &str) -> (r: Vec<String>)
    ensures
        r@.map_values(|t: String| t@) == spec_statements(text@),
{
    keep_nonblank(split_on(text, ';'))
}

/// Reads the nine-column person rows of a delimited text: one import
/// record per non-blank line, each line split on commas, the first
/// non-blank line skipped when `has_header` is set.
pub fn person_records_from_text(text: &str, has_header: bool) -> (r: Vec<ImportRecord>)
    ensures
        ({
            let rows = spec_rows(text@);
            let off: int = if has_header && rows.len() > 0 { 1 } else { 0 };
            r@.len() == rows.len() - off
            && forall|k: int| 0 <= k < r@.len()
                ==> (match #[trigger] r@[k] {
                    ImportRecord::PersonRow { fields } =>
                        fields@.map_values(|f: String| f@) == spec_split(rows[k + off], ','),
                    ImportRecord::RelationshipRow { .. } => false,
                })
        }),
{
    let rows = split_rows(text);
    let ghost rs = spec_rows(text@);
    let mut out: Vec<ImportRecord> = Vec::new();
    let start: usize = if has_header && rows.len() > 0 { 1 } else { 0 };
    let mut j: usize = start;
    while j < rows.len()
        invariant
            rows@.map_values(|t: String| t@) == rs,
            start == (if has_header && rs.len() > 0 { 1int } else { 0 }),
            start <= j <= rows@.len(),
            out@.len() == j - start,
            forall|k: int| 0 <= k < out@.len()
                ==> (match #[trigger] out@[k] {
                    ImportRecord::PersonRow { fields } =>
                        fields@.map_values(|f: String| f@)
                            == spec_split(rs[k + start], ','),
                    ImportRecord::RelationshipRow { .. } => false,
                }),
        decreases rows@.len() - j,
    {
        let fields = split_on(rows[j].as_str(), ',');
        proof {
            assert(rows@[j as int]@ == rs[j as int]);
        }
        out.push(ImportRecord::PersonRow { fields });
        j += 1;
    }
    out
}

/// Reads the five-column relationship rows of a delimited text: one
/// import record per non-blank line, each line split on commas, the
/// first non-blank line skipped when `has_header` is set.
pub fn relationship_records_from_text(text: &str, has_header: bool) -> (r: Vec<ImportRecord>)
    ensures
        ({
            let rows = spec_rows(text@);
            let off: int = if has_header && rows.len() > 0 { 1 } else { 0 };
            r@.len() == rows.len() - off
            && forall|k: int| 0 <= k < r@.len()
                ==> (match #[trigger] r@[k] {
                    ImportRecord::RelationshipRow { fields } =>
                        fields@.map_values(|f: String| f@) == spec_split(rows[k + off], ','),
                    ImportRecord::PersonRow { .. } => false,
                })
        }),
{
    let rows = split_rows(text);
    let ghost rs = spec_rows(text@);
    let mut out: Vec<ImportRecord> = Vec::new();
    let start: usize = if has_header && rows.len() > 0 { 1 } else { 0 };
    let mut j: usize = start;
    while j < rows.len()
        invariant
            rows@.map_values(|t: String| t@) == rs,
            start == (if has_header && rs.len() > 0 { 1int } else { 0 }),
            start <= j <= rows@.len(),
            out@.len() == j - start,
            forall|k: int| 0 <= k < out@.len()
                ==> (match #[trigger] out@[k] {
                    ImportRecord::RelationshipRow { fields } =>
                        fields@.map_values(|f: String| f@)
                            == spec_split(rs[k + start], ','),
                    ImportRecord::PersonRow { .. } => false,
                }),
        decreases rows@.len() - j,
    {
        let fields = split_on(rows[j].as_str(), ',');
        proof {
            assert(rows@[j as int]@ == rs[j as int]);
        }
        out.push(ImportRecord::RelationshipRow { fields });
        j += 1;
    }
    out
}

/// The aggregate outcome of a batch import: how many records succeeded,
/// and for each failed record its position and the reason.
#[derive(PartialEq, Eq, Debug)]
pub struct ImportReport {
    pub succeeded: usize,
    pub failed: Vec<(usize, GraphError)>,
}

proof fn lemma_person_matches_constraints(fs: Seq<Seq<char>>, p: Person)
    requires
        person_fields_wellformed(fs),
        person_record_matches(fs, p),
    ensures
        crate::domain::person_constraints(p) == person_fields_constraints(fs),
{
}

/// What one import record does to the store: a malformed record fails
/// with `RecordFormatError` and changes nothing; a person row beyond that
/// follows the create contract, a relationship row the add-relationship
/// contract; a record that fails leaves the store exactly as it was.
pub open spec fn record_outcome(
    pre: Repository,
    post: Repository,
    rec: ImportRecord,
    res: Option<GraphError>,
) -> bool {
    match rec {
        ImportRecord::PersonRow { fields } => {
            let fs = fields@.map_values(|f: String| f@);
            if !person_fields_wellformed(fs) {
                res == Some(GraphError::RecordFormatError) && post == pre
            } else if !person_fields_constraints(fs) {
                res == Some(GraphError::ConstraintViolation) && post == pre
            } else {
                res is None && exists|p: Person| #[trigger] person_record_matches(fs, p)
                    && create_transition(pre, post, p, PersonId { value: pre.spec_next_id() })
            }
        },
        ImportRecord::RelationshipRow { fields } => {
            let fs = fields@.map_values(|f: String| f@);
            match spec_parse_relationship(fs) {
                None => res == Some(GraphError::RecordFormatError) && post == pre,
                Some(rel) => {
                    if !(pre.has_person(rel.spec_from_id().value)
                        && pre.has_person(rel.spec_to_id().value)) {
                        res == Some(GraphError::UnknownPerson) && post == pre
                    } else if !relationship_constraints(rel) {
                        res == Some(GraphError::ConstraintViolation) && post == pre
                    } else {
                        res is None
                        && post.entries() == pre.entries()
                        && post.spec_next_id() == pre.spec_next_id()
                        && post.spec_edges() == pre.spec_edges().push(rel)
                    }
                },
            }
        },
    }
}

/// The batch import relation: the store moves from `pre` to `post` by
/// taking the records in order, each with its `record_outcome`; `fails`
/// lists exactly the failing records, by position and reason, in order.
pub open spec fn import_trace(
    pre: Repository,
    post: Repository,
    recs: Seq<ImportRecord>,
    fails: Seq<(usize, GraphError)>,
) -> bool
    decreases recs.len(),
{
    if recs.len() == 0 {
        post == pre && fails.len() == 0
    } else {
        exists|mid: Repository, res: Option<GraphError>|
            #[trigger] record_outcome(mid, post, recs.last(), res)
            && (match res {
                None => import_trace(pre, mid, recs.drop_last(), fails),
                Some(e) => fails.len() > 0
                    && fails.last() == (((recs.len() - 1) as usize, e))
                    && import_trace(pre, mid, recs.drop_last(), fails.drop_last()),
            })
    }
}

impl Repository {
    /// Consumes a batch of import records in order, creating a person or
    /// a relationship for each, isolating per-record failures: a failed
    /// record is reported with its position and reason and the batch
    /// goes on. Succeeded and failed counts always add up to the batch
    /// size.
    pub fn import_from_records(&mut self, records: &Vec<ImportRecord>) -> (report: ImportReport)
        requires
            old(self).wf(),
            old(self).spec_next_id() + records@.len() <= u64::MAX,
        ensures
            final(self).wf(),
            report.succeeded + report.failed@.len() == records@.len(),
            import_trace(*old(self), *final(self), records@, report.failed@),
    {
        let mut succeeded: usize = 0;
        let mut failed: Vec<(usize, GraphError)> = Vec::new();
        let mut i: usize = 0;
        proof {
            assert(records@.take(0) =~= Seq::<ImportRecord>::empty());
        }
        while i < records.len()
            invariant
                self.wf(),
                0 <= i <= records@.len(),
                self.spec_next_id() + (records@.len() - i) <= u64::MAX,
                succeeded + failed@.len() == i,
                import_trace(*old(self), *self, records@.take(i as int), failed@),
            decreases records@.len() - i,
        {
            let ghost pre_step = *self;
            let res: Option<GraphError> = match &records[i] {
                ImportRecord::PersonRow { fields } => {
                    match parse_person_record(fields) {
                        Result::Err(e) => Some(e),
                        Result::Ok(p) => {
                            proof {
                                lemma_person_matches_constraints(
                                    fields@.map_values(|f: String| f@), p);
                            }
                            match self.create_person(&p) {
                                Result::Ok(_) => None,
                                Result::Err(e) => Some(e),
                            }
                        },
                    }
                },
                ImportRecord::RelationshipRow { fields } => {
                    match parse_relationship_record(fields) {
                        Result::Err(e) => Some(e),
                        Result::Ok(rel) => {
                            match self.add_relationship(&rel) {
                                Result::Ok(_) => None,
                                Result::Err(e) => Some(e),
                            }
                        },
                    }
                },
            };
            proof {
                assert(record_outcome(pre_step, *self, records@[i as int], res));
            }
            let ghost old_failed = failed@;
            match res {
                None => {
                    succeeded += 1;
                },
                Some(e) => {
                    failed.push((i, e));
                },
            }
            proof {
                let prefix1 = records@.take(i + 1);
                assert(prefix1.drop_last() =~= records@.take(i as int));
                assert(prefix1.last() == records@[i as int]);
                assert(record_outcome(pre_step, *self, prefix1.last(), res));
                match res {
                    None => {
                        assert(import_trace(*old(self), pre_step, prefix1.drop_last(),
                            failed@));
                    },
                    Some(e) => {
                        assert(failed@.last() == ((i, e)));
                        assert(failed@.drop_last() =~= old_failed);
                        assert(import_trace(*old(self), pre_step, prefix1.drop_last(),
                            failed@.drop_last()));
                    },
                }
                assert(import_trace(*old(self), *self, prefix1, failed@));
            }
            i += 1;
        }
        proof {
            assert(records@.take(records@.len() as int) =~= records@);
        }
        ImportReport { succeeded, failed }
    }
}

} // verus!
