//! The logical entity of the migration: a place with its ordered, non-empty
//! list of visits, and its encoding into write statements under the two
//! batching policies.
//!
//! Under the bulk policy the place and all its visits are encoded into the
//! same open buffer, visits referencing the place by temporary identifier,
//! and the buffer is flushed between entities once its threshold is
//! crossed. Under the per-child policy (threshold zero) the place is
//! committed alone; its permanent identifier, resolved by the store, is
//! what each visit then references, each in a commit of its own.

use vstd::prelude::*;
use vstd::utf8::encode_utf8;

use crate::builder::TransactBuilder;
use crate::builder::stmt_chars;
use crate::builder::ref_value_chars;
use crate::builder::inst_value_chars;
use crate::builder::str_value_chars;
use crate::catalog::Catalog;
use crate::catalog::VisitType;
use crate::catalog::place_url_text;
use crate::catalog::place_url_hash_text;
use crate::catalog::place_title_text;
use crate::catalog::place_description_text;
use crate::catalog::place_frecency_text;
use crate::catalog::visit_place_text;
use crate::catalog::visit_date_text;
use crate::catalog::visit_type_text;
use crate::text::dec_int;

verus! {

/// One visit of a place, mathematically.
pub ghost struct VisitV {
    pub date: int,
    pub visit_type: VisitType,
}

/// One flat source row, mathematically: one place-visit pair.
pub ghost struct RowV {
    pub id: int,
    pub url: Seq<char>,
    pub url_hash: int,
    pub description: Option<Seq<char>>,
    pub title: Option<Seq<char>>,
    pub frecency: int,
    pub visit_date: int,
    pub visit_type: int,
}

/// One aggregated entity, mathematically: a place with its visits.
pub ghost struct PlaceV {
    pub id: int,
    pub url: Seq<char>,
    pub url_hash: int,
    pub description: Option<Seq<char>>,
    pub title: Seq<char>,
    pub frecency: int,
    pub visits: Seq<VisitV>,
}

/// One visit of a place: the microsecond instant and the kind of visit.
#[derive(Clone, Copy)]
pub struct Visit {
    pub date: i64,
    pub visit_type: VisitType,
}

impl View for Visit {
    type V = VisitV;

    open spec fn view(&self) -> VisitV {
        VisitV { date: self.date as int, visit_type: self.visit_type }
    }
}

/// One flat row of the source stream, as the source reader hands it over:
/// one place-visit pair, places with several visits arriving as that many
/// consecutive rows. Title and description may be absent; the visit type is
/// the source's raw 1-indexed code.
pub struct SourceRow {
    pub id: i64,
    pub url: String,
    pub url_hash: i64,
    pub description: Option<String>,
    pub title: Option<String>,
    pub frecency: i64,
    pub visit_date: i64,
    pub visit_type: i64,
}

impl View for SourceRow {
    type V = RowV;

    open spec fn view(&self) -> RowV {
        RowV {
            id: self.id as int,
            url: self.url@,
            url_hash: self.url_hash as int,
            description: match self.description {
                Some(d) => Some(d@),
                None => None,
            },
            title: match self.title {
                Some(t) => Some(t@),
                None => None,
            },
            frecency: self.frecency as int,
            visit_date: self.visit_date as int,
            visit_type: self.visit_type as int,
        }
    }
}

/// The visit carried by one source row, its raw type code clamped.
pub open spec fn row_visit(r: RowV) -> VisitV {
    VisitV { date: r.visit_date, visit_type: VisitType::spec_from_code(r.visit_type) }
}

/// The entity seeded by the first source row of a key: the place's fields
/// from the row (an absent title defaults to empty) and that row's visit as
/// the first of the list.
pub open spec fn entity_of(r: RowV) -> PlaceV {
    PlaceV {
        id: r.id,
        url: r.url,
        url_hash: r.url_hash,
        description: r.description,
        title: match r.title {
            Some(t) => t,
            None => Seq::empty(),
        },
        frecency: r.frecency,
        visits: seq![row_visit(r)],
    }
}

/// An aggregated place with its ordered, non-empty list of visits.
pub struct PlaceEntry {
    pub id: i64,
    pub url: String,
    pub url_hash: i64,
    pub description: Option<String>,
    pub title: String,
    pub frecency: i64,
    pub visits: Vec<Visit>,
}

impl View for PlaceEntry {
    type V = PlaceV;

    open spec fn view(&self) -> PlaceV {
        PlaceV {
            id: self.id as int,
            url: self.url@,
            url_hash: self.url_hash as int,
            description: match self.description {
                Some(d) => Some(d@),
                None => None,
            },
            title: self.title@,
            frecency: self.frecency as int,
            visits: self.visits@.map_values(|v: Visit| v@),
        }
    }
}

/// The statement texts that encode the place itself under a temporary
/// identifier: url, url hash and title always, the description only when
/// present, and the frecency.
pub open spec fn place_stmts_chars(p: PlaceV, pid: int) -> Seq<char> {
    stmt_chars(pid, place_url_text(), str_value_chars(p.url)) + stmt_chars(
        pid,
        place_url_hash_text(),
        dec_int(p.url_hash),
    ) + stmt_chars(pid, place_title_text(), str_value_chars(p.title)) + (match p.description {
        Some(d) => stmt_chars(pid, place_description_text(), str_value_chars(d)),
        None => Seq::<char>::empty(),
    }) + stmt_chars(pid, place_frecency_text(), dec_int(p.frecency))
}

/// How many statements encode the place itself.
pub open spec fn place_stmt_count(p: PlaceV) -> int {
    if p.description is Some {
        5
    } else {
        4
    }
}

/// The statement texts of one visit under the bulk policy: the place is
/// referenced by its temporary identifier, still pending in the same batch.
pub open spec fn visit_stmts_ref_chars(v: VisitV, vid: int, pid: int) -> Seq<char> {
    stmt_chars(vid, visit_place_text(), ref_value_chars(pid)) + stmt_chars(
        vid,
        visit_date_text(),
        inst_value_chars(v.date),
    ) + stmt_chars(vid, visit_type_text(), v.visit_type.kw_text())
}

/// The statement texts of one visit under the per-child policy: the place
/// is referenced by its already-resolved permanent identifier, since its
/// temporary identifier died with the batch that introduced it.
pub open spec fn visit_stmts_eid_chars(v: VisitV, vid: int, eid: int) -> Seq<char> {
    stmt_chars(vid, visit_place_text(), dec_int(eid)) + stmt_chars(
        vid,
        visit_date_text(),
        inst_value_chars(v.date),
    ) + stmt_chars(vid, visit_type_text(), v.visit_type.kw_text())
}

/// The statement texts of the first `n` visits under the bulk policy, the
/// visit at position `i` standing under temporary identifier `pid + 1 + i`.
pub open spec fn bulk_visits_chars(visits: Seq<VisitV>, pid: int, n: int) -> Seq<char>
    decreases n,
{
    if n <= 0 {
        Seq::empty()
    } else {
        bulk_visits_chars(visits, pid, n - 1) + visit_stmts_ref_chars(visits[n - 1], pid + n, pid)
    }
}

/// How many statements encode a whole entity, under either policy.
pub open spec fn entity_stmt_count(p: PlaceV) -> int {
    place_stmt_count(p) + 3 * (p.visits.len() as int)
}

/// The buffer text after an entity was bulk-encoded into it: the place's
/// statements, then every visit's.
pub open spec fn bulk_encoded_data(pre: Seq<char>, p: PlaceV, pid: int) -> Seq<char> {
    pre + place_stmts_chars(p, pid) + bulk_visits_chars(p.visits, pid, p.visits.len() as int)
}

/// What one call of `add` asks its caller to do next.
pub enum AddStep {
    /// Bulk policy: the whole entity sits in the open buffer; when the
    /// buffer crossed its threshold, the closed batch to submit (after the
    /// store accepts it, call `reset`).
    Buffered(Option<String>),
    /// Per-child policy: the place alone was encoded and closed. Submit the
    /// batch, resolve the given temporary identifier to its permanent
    /// identifier through the store's resolution map, call `reset`, then
    /// hand each visit to `add_visit` in turn.
    CommitPlace(String, u64),
}

impl PlaceEntry {
    /// Encodes this entity into the buffer and decides, by policy, what the
    /// caller must commit: under the bulk policy (nonzero threshold) the
    /// place and all visits join the open buffer, which is flushed exactly
    /// when its byte size has reached the threshold; under the per-child
    /// policy (threshold zero) the place's own batch is closed at once.
    #[verifier::rlimit(60)]
    pub fn add(&self, builder: &mut TransactBuilder, cat: &Catalog) -> (step: AddStep)
        requires
            old(builder).wf(),
            cat.wf(),
            self.visits@.len() >= 1,
            old(builder).counter + 1 + self.visits@.len() <= u64::MAX,
            old(builder).terms + entity_stmt_count(self@) <= u64::MAX,
            old(builder).total_terms + entity_stmt_count(self@) <= u64::MAX,
        ensures
            final(builder).wf(),
            final(builder).max_buffer_size == old(builder).max_buffer_size,
            old(builder).max_buffer_size != 0 ==> {
                let pid = old(builder).counter + 1;
                let mid = bulk_encoded_data(old(builder).data@, self@, pid as int);
                &&& step is Buffered
                &&& final(builder).counter == old(builder).counter + 1 + self@.visits.len()
                &&& final(builder).terms == old(builder).terms + entity_stmt_count(self@)
                &&& final(builder).total_terms == old(builder).total_terms + entity_stmt_count(
                    self@,
                )
                &&& (encode_utf8(mid).len() as usize >= old(builder).max_buffer_size ==> {
                    &&& step->Buffered_0 is Some
                    &&& step->Buffered_0->Some_0@ == mid + "]"@
                    &&& final(builder).data@ == mid + "]"@
                })
                &&& (!(encode_utf8(mid).len() as usize >= old(builder).max_buffer_size) ==> {
                    &&& step->Buffered_0 is None
                    &&& final(builder).data@ == mid
                })
            },
            old(builder).max_buffer_size == 0 ==> {
                let pid = old(builder).counter + 1;
                let mid = old(builder).data@ + place_stmts_chars(self@, pid as int);
                &&& step is CommitPlace
                &&& step->CommitPlace_1 == pid
                &&& step->CommitPlace_0@ == mid + "]"@
                &&& final(builder).counter == pid
                &&& final(builder).data@ == mid + "]"@
                &&& final(builder).terms == old(builder).terms + place_stmt_count(self@)
                &&& final(builder).total_terms == old(builder).total_terms + place_stmt_count(
                    self@,
                )
            },
    {
        let ghost pre = *old(builder);
        let place_id = builder.next_tempid();
        proof {
            assert(builder.issued@[builder.issued@.len() - 1] == place_id);
        }
        builder.add_str(place_id, &cat.place_url, self.url.as_str());
        builder.add_long(place_id, &cat.place_url_hash, self.url_hash);
        builder.add_str(place_id, &cat.place_title, self.title.as_str());
        match &self.description {
            Some(desc) => builder.add_str(place_id, &cat.place_description, desc.as_str()),
            None => {},
        }
        builder.add_long(place_id, &cat.place_frecency, self.frecency);
        proof {
            assert(builder.data@ =~= pre.data@ + place_stmts_chars(self@, place_id as int));
            assert(builder.terms == pre.terms + place_stmt_count(self@));
        }
        if builder.max_buffer_size == 0 {
            let text = builder.transact();
            AddStep::CommitPlace(text.unwrap(), place_id)
        } else {
            let n = self.visits.len();
            assert(bulk_visits_chars(self@.visits, place_id as int, 0) =~= Seq::<char>::empty());
            assert(builder.data@ =~= pre.data@ + place_stmts_chars(self@, place_id as int)
                + bulk_visits_chars(self@.visits, place_id as int, 0));
            for i in 0..n
                invariant
                    builder.wf(),
                    cat.wf(),
                    n == self.visits@.len(),
                    self@.visits.len() == n,
                    builder.counter == place_id + i,
                    place_id == pre.counter + 1,
                    pre.counter + 1 + n <= u64::MAX,
                    builder.data@ == pre.data@ + place_stmts_chars(self@, place_id as int)
                        + bulk_visits_chars(self@.visits, place_id as int, i as int),
                    builder.terms == pre.terms + place_stmt_count(self@) + 3 * i,
                    builder.total_terms == pre.total_terms + place_stmt_count(self@) + 3 * i,
                    pre.terms + entity_stmt_count(self@) <= u64::MAX,
                    pre.total_terms + entity_stmt_count(self@) <= u64::MAX,
                    place_stmt_count(self@) <= 5,
                    builder.max_buffer_size == pre.max_buffer_size,
            {
                let ghost data_before = builder.data@;
                let visit = self.visits[i];
                proof {
                    assert(self@.visits[i as int] == visit@);
                }
                let visit_id = builder.next_tempid();
                proof {
                    assert(builder.issued@[builder.issued@.len() - 1] == visit_id);
                }
                builder.add_ref_to_tmpid(visit_id, &cat.visit_place, place_id);
                builder.add_inst(visit_id, &cat.visit_date, visit.date);
                builder.add_kw(visit_id, &cat.visit_type, cat.visit_type_kw(visit.visit_type));
                proof {
                    assert(builder.data@ =~= data_before + visit_stmts_ref_chars(
                        self@.visits[i as int],
                        place_id as int + i + 1,
                        place_id as int,
                    ));
                    assert(builder.data@ =~= pre.data@ + place_stmts_chars(self@, place_id as int)
                        + bulk_visits_chars(self@.visits, place_id as int, i + 1));
                }
            }
            proof {
                assert(builder.data@ == bulk_encoded_data(pre.data@, self@, place_id as int));
                assert(builder.terms == pre.terms + entity_stmt_count(self@));
            }
            AddStep::Buffered(builder.maybe_transact())
        }
    }

    /// Per-child policy, one visit: encodes the visit's statements under a
    /// fresh temporary identifier, referencing the place by its resolved
    /// permanent identifier, and closes the batch for the caller to submit
    /// as this visit's own transaction.
    pub fn add_visit(
        builder: &mut TransactBuilder,
        cat: &Catalog,
        place_eid: i64,
        visit: &Visit,
    ) -> (text: String)
        requires
            old(builder).wf(),
            cat.wf(),
            old(builder).counter < u64::MAX,
            old(builder).terms + 3 <= u64::MAX,
            old(builder).total_terms + 3 <= u64::MAX,
        ensures
            final(builder).wf(),
            final(builder).counter == old(builder).counter + 1,
            final(builder).terms == old(builder).terms + 3,
            final(builder).total_terms == old(builder).total_terms + 3,
            final(builder).max_buffer_size == old(builder).max_buffer_size,
            ({
                let vid = old(builder).counter + 1;
                let mid = old(builder).data@ + visit_stmts_eid_chars(
                    visit@,
                    vid as int,
                    place_eid as int,
                );
                text@ == mid + "]"@ && final(builder).data@ == mid + "]"@
            }),
    {
        let ghost pre = *old(builder);
        let visit_id = builder.next_tempid();
        proof {
            assert(builder.issued@[builder.issued@.len() - 1] == visit_id);
        }
        builder.add_long(visit_id, &cat.visit_place, place_eid);
        builder.add_inst(visit_id, &cat.visit_date, visit.date);
        builder.add_kw(visit_id, &cat.visit_type, cat.visit_type_kw(visit.visit_type));
        proof {
            assert(builder.data@ =~= pre.data@ + visit_stmts_eid_chars(
                visit@,
                visit_id as int,
                place_eid as int,
            ));
        }
        let r = builder.transact();
        r.unwrap()
    }

    /// Seeds a fresh entity from the first source row of its key: the
    /// place's fields from the row, an absent title defaulting to empty,
    /// and that row's visit (type code clamped) as the first of the list.
    pub fn from_row(row: &SourceRow) -> (p: PlaceEntry)
        ensures
            p@ == entity_of(row@),
    {
        let title: String = match &row.title {
            Some(t) => t.clone(),
            None => "".to_owned(),
        };
        proof {
            reveal_strlit("");
            assert(""@ =~= Seq::<char>::empty());
        }
        let visit = Visit { date: row.visit_date, visit_type: VisitType::from_code(row.visit_type) };
        let visits: Vec<Visit> = vec![visit];
        let p = PlaceEntry {
            id: row.id,
            url: row.url.clone(),
            url_hash: row.url_hash,
            description: match &row.description {
                Some(d) => Some(d.clone()),
                None => None,
            },
            title,
            frecency: row.frecency,
            visits,
        };
        proof {
            assert(p@.visits =~= seq![row_visit(row@)]);
            assert(p@ == entity_of(row@));
        }
        p
    }
}

/// How many commits the bulk policy makes for one entity whose statements
/// all fit under the threshold: a single one.
pub open spec fn bulk_commit_count(p: PlaceV) -> int {
    1
}

/// How many commits the per-child policy makes for one entity: the place's
/// own, then one per visit.
pub open spec fn per_child_commit_count(p: PlaceV) -> int {
    1 + p.visits.len() as int
}

/// How many statements the per-child policy writes for one entity: the
/// place's, then three per visit.
pub open spec fn per_child_stmt_count(p: PlaceV) -> int {
    place_stmt_count(p) + 3 * (p.visits.len() as int)
}

/// Law: the two policies diverge in commit calls but not in statements.
/// For an entity with at least one visit the per-child policy commits
/// strictly more often than the one bulk commit, while both write the same
/// total number of statements.
pub proof fn lemma_policy_divergence(p: PlaceV)
    requires
        p.visits.len() >= 1,
    ensures
        per_child_commit_count(p) > bulk_commit_count(p),
        per_child_stmt_count(p) == entity_stmt_count(p),
{
}

} // verus!
