//! The stream grouper: folds consecutive source rows sharing an entity key
//! into one aggregated place, emitting a finished place whenever the key
//! changes, and the last one when the stream ends.
//!
//! The source must yield rows sorted ascending by key; that is the caller's
//! contract, and a violated order silently groups wrongly (the grouper
//! never re-sorts). The accumulator is seeded with a sentinel (a negative
//! key, which no source row carries).

use vstd::prelude::*;

use crate::catalog::VisitType;
use crate::entry::PlaceEntry;
use crate::entry::PlaceV;
use crate::entry::RowV;
use crate::entry::SourceRow;
use crate::entry::Visit;
use crate::entry::VisitV;
use crate::entry::entity_of;
use crate::entry::row_visit;

verus! {

/// The place a grouping step leaves in the accumulator after one more row:
/// the same place with the row's visit appended.
pub open spec fn append_row_visit(p: PlaceV, r: RowV) -> PlaceV {
    PlaceV { visits: p.visits.push(row_visit(r)), ..p }
}

/// One grouping step: what a row emits and what the accumulator becomes.
/// A row whose key matches the accumulated place appends its visit; any
/// other row emits the accumulated place (when one is held) and seeds a
/// fresh one.
pub open spec fn feed(acc: Option<PlaceV>, r: RowV) -> (Option<PlaceV>, Option<PlaceV>) {
    match acc {
        Some(p) => {
            if p.id == r.id {
                (None, Some(append_row_visit(p, r)))
            } else {
                (Some(p), Some(entity_of(r)))
            }
        },
        None => (None, Some(entity_of(r))),
    }
}

/// Every place the grouping of `rows` emits, starting from an accumulator,
/// the final accumulator included.
pub open spec fn group_with(acc: Option<PlaceV>, rows: Seq<RowV>) -> Seq<PlaceV>
    decreases rows.len(),
{
    if rows.len() == 0 {
        match acc {
            Some(p) => seq![p],
            None => Seq::empty(),
        }
    } else {
        let step = feed(acc, rows[0]);
        (match step.0 {
            Some(p) => seq![p],
            None => Seq::<PlaceV>::empty(),
        }) + group_with(step.1, rows.drop_first())
    }
}

/// Every place the grouping of a whole row stream emits, in order.
pub open spec fn group(rows: Seq<RowV>) -> Seq<PlaceV> {
    group_with(None, rows)
}

/// The view of an emitted entity, when one was emitted.
pub open spec fn opt_place_view(o: Option<PlaceEntry>) -> Option<PlaceV> {
    match o {
        Some(p) => Some(p@),
        None => None,
    }
}

/// The stream grouper. The accumulator's sentinel state is a negative key.
pub struct Grouper {
    pub current: PlaceEntry,
}

impl View for Grouper {
    type V = Option<PlaceV>;

    open spec fn view(&self) -> Option<PlaceV> {
        if self.current.id < 0 {
            None
        } else {
            Some(self.current@)
        }
    }
}

impl Grouper {
    /// A held place always has at least one visit: the row that seeded it
    /// brought the first, and rows only ever append more.
    pub open spec fn wf(self) -> bool {
        self.current.id >= 0 ==> self.current.visits@.len() >= 1
    }

    pub fn new() -> (g: Grouper)
        ensures
            g.wf(),
            g@ is None,
    {
        Grouper {
            current: PlaceEntry {
                id: -1,
                url: "".to_owned(),
                url_hash: 0,
                description: None,
                title: "".to_owned(),
                frecency: 0,
                visits: Vec::new(),
            },
        }
    }

    /// Consumes one source row: appends its visit to the accumulated place
    /// when the key matches, and otherwise emits the accumulated place (if
    /// any) and seeds a fresh one from the row.
    pub fn push(&mut self, row: &SourceRow) -> (emitted: Option<PlaceEntry>)
        requires
            old(self).wf(),
            row.id >= 0,
        ensures
            final(self).wf(),
            opt_place_view(emitted) == feed(old(self)@, row@).0,
            final(self)@ == feed(old(self)@, row@).1,
    {
        if self.current.id == row.id {
            let visit = Visit {
                date: row.visit_date,
                visit_type: VisitType::from_code(row.visit_type),
            };
            self.current.visits.push(visit);
            proof {
                assert(self.current@.visits =~= old(self).current@.visits.push(row_visit(row@)));
                assert(self.current@ == append_row_visit(old(self).current@, row@));
            }
            None
        } else if self.current.id >= 0 {
            let mut fresh = PlaceEntry::from_row(row);
            proof {
                assert(fresh@.visits.len() == 1);
                assert(fresh.visits@.len() == 1);
            }
            core::mem::swap(&mut self.current, &mut fresh);
            Some(fresh)
        } else {
            let fresh = PlaceEntry::from_row(row);
            proof {
                assert(fresh@.visits.len() == 1);
                assert(fresh.visits@.len() == 1);
            }
            self.current = fresh;
            None
        }
    }

    /// Ends the stream: emits the accumulated place when one is held.
    pub fn finish(self) -> (emitted: Option<PlaceEntry>)
        ensures
            opt_place_view(emitted) == self@,
    {
        if self.current.id >= 0 {
            Some(self.current)
        } else {
            None
        }
    }
}

/// Groups a whole row sequence at once: every emitted place, in order.
/// The lazy, row-at-a-time fold over `push` and `finish` yields the same
/// places; this eager form states the correspondence to `group` directly.
pub fn group_rows(rows: &Vec<SourceRow>) -> (entities: Vec<PlaceEntry>)
    requires
        forall|i: int| 0 <= i < rows@.len() ==> #[trigger] rows@[i].id >= 0,
    ensures
        entities@.map_values(|p: PlaceEntry| p@) == group(rows@.map_values(|r: SourceRow| r@)),
{
    let ghost rows_v = rows@.map_values(|r: SourceRow| r@);
    let mut grouper = Grouper::new();
    let mut entities: Vec<PlaceEntry> = Vec::new();
    proof {
        assert(rows_v.skip(0) =~= rows_v);
        assert(entities@.map_values(|p: PlaceEntry| p@) + group_with(grouper@, rows_v)
            =~= group(rows_v));
    }
    let n = rows.len();
    for i in 0..n
        invariant
            n == rows@.len(),
            rows_v == rows@.map_values(|r: SourceRow| r@),
            forall|k: int| 0 <= k < rows@.len() ==> #[trigger] rows@[k].id >= 0,
            grouper.wf(),
            entities@.map_values(|p: PlaceEntry| p@) + group_with(grouper@, rows_v.skip(i as int))
                == group(rows_v),
    {
        let ghost pre_entities = entities@.map_values(|p: PlaceEntry| p@);
        let ghost pre_acc = grouper@;
        proof {
            assert(rows_v.skip(i as int)[0] == rows_v[i as int]);
            assert(rows_v.skip(i as int).drop_first() =~= rows_v.skip(i + 1));
            assert(rows_v[i as int] == rows@[i as int]@);
        }
        let emitted = grouper.push(&rows[i]);
        match emitted {
            Some(p) => {
                entities.push(p);
                proof {
                    assert(entities@.map_values(|p: PlaceEntry| p@) =~= pre_entities.push(p@));
                    assert(pre_entities + (seq![p@] + group_with(grouper@, rows_v.skip(i + 1)))
                        =~= pre_entities.push(p@) + group_with(grouper@, rows_v.skip(i + 1)));
                }
            },
            None => {
                proof {
                    assert(entities@.map_values(|p: PlaceEntry| p@) =~= pre_entities);
                    assert(pre_entities + (Seq::<PlaceV>::empty() + group_with(
                        grouper@,
                        rows_v.skip(i + 1),
                    )) =~= pre_entities + group_with(grouper@, rows_v.skip(i + 1)));
                }
            },
        }
    }
    proof {
        assert(rows_v.skip(n as int) =~= Seq::<RowV>::empty());
    }
    let last = grouper.finish();
    match last {
        Some(p) => {
            let ghost pre_entities = entities@.map_values(|q: PlaceEntry| q@);
            entities.push(p);
            proof {
                assert(entities@.map_values(|q: PlaceEntry| q@) =~= pre_entities.push(p@));
                assert(pre_entities.push(p@) =~= pre_entities + seq![p@]);
            }
        },
        None => {
            proof {
                assert(entities@.map_values(|q: PlaceEntry| q@) + Seq::<PlaceV>::empty()
                    =~= entities@.map_values(|q: PlaceEntry| q@));
            }
        },
    }
    entities
}

/// Rows sorted ascending by entity key, as the source reader must yield
/// them.
pub open spec fn sorted_by_id(rows: Seq<RowV>) -> bool {
    forall|i: int, j: int| 0 <= i <= j < rows.len() ==> rows[i].id <= rows[j].id
}

/// Every row carries a valid (nonnegative) entity key.
pub open spec fn nonneg_ids(rows: Seq<RowV>) -> bool {
    forall|i: int| 0 <= i < rows.len() ==> #[trigger] rows[i].id >= 0
}

/// The entity keys of the rows, in order.
pub open spec fn ids_of(rows: Seq<RowV>) -> Seq<int> {
    rows.map_values(|r: RowV| r.id)
}

/// The visits of exactly the rows carrying key `k`, in input order.
pub open spec fn visits_of(rows: Seq<RowV>, k: int) -> Seq<VisitV>
    decreases rows.len(),
{
    if rows.len() == 0 {
        Seq::empty()
    } else if rows[0].id == k {
        seq![row_visit(rows[0])] + visits_of(rows.drop_first(), k)
    } else {
        visits_of(rows.drop_first(), k)
    }
}

proof fn lemma_visits_of_absent(rows: Seq<RowV>, k: int)
    requires
        forall|i: int| 0 <= i < rows.len() ==> #[trigger] rows[i].id != k,
    ensures
        visits_of(rows, k) == Seq::<VisitV>::empty(),
    decreases rows.len(),
{
    if rows.len() > 0 {
        lemma_visits_of_absent(rows.drop_first(), k);
    }
}

proof fn lemma_to_set_cons(ids: Seq<int>)
    requires
        ids.len() > 0,
    ensures
        ids.to_set() =~= ids.drop_first().to_set().insert(ids[0]),
{
    let t = ids.drop_first();
    assert forall|x: int| ids.to_set().contains(x) implies t.to_set().insert(ids[0]).contains(
        x,
    ) by {
        let i = choose|i: int| 0 <= i < ids.len() && ids[i] == x;
        if i > 0 {
            assert(t[i - 1] == x);
            assert(t.contains(x));
        }
    }
    assert forall|x: int| t.to_set().insert(ids[0]).contains(x) implies ids.to_set().contains(
        x,
    ) by {
        if x == ids[0] {
            assert(ids.contains(x));
        } else {
            let i = choose|i: int| 0 <= i < t.len() && t[i] == x;
            assert(ids[i + 1] == x);
            assert(ids.contains(x));
        }
    }
}

proof fn lemma_insert_remove_len(s: Set<int>, x: int)
    requires
        s.finite(),
    ensures
        s.insert(x).len() == 1 + s.remove(x).len(),
{
    if s.contains(x) {
        assert(s.insert(x) =~= s);
    } else {
        assert(s.remove(x) =~= s);
    }
}

/// The shape of grouping a sorted tail of rows behind an already-seeded
/// accumulator whose key is at most every remaining key: the accumulated
/// place comes out first, completed by the visits of its remaining rows;
/// one further place comes out per further distinct key, in strictly
/// ascending key order, each carrying exactly the visits of its rows.
proof fn lemma_group_with_sorted(p: PlaceV, rows: Seq<RowV>)
    requires
        sorted_by_id(rows),
        forall|i: int| 0 <= i < rows.len() ==> p.id <= #[trigger] rows[i].id,
    ensures
        group_with(Some(p), rows).len() == 1 + ids_of(rows).to_set().remove(p.id).len(),
        group_with(Some(p), rows)[0].id == p.id,
        group_with(Some(p), rows)[0].visits == p.visits + visits_of(rows, p.id),
        forall|j: int|
            1 <= j < group_with(Some(p), rows).len() ==> #[trigger] group_with(Some(p), rows)[j].visits
                == visits_of(rows, group_with(Some(p), rows)[j].id),
        forall|j1: int, j2: int|
            0 <= j1 < j2 < group_with(Some(p), rows).len() ==> group_with(Some(p), rows)[j1].id
                < group_with(Some(p), rows)[j2].id,
    decreases rows.len(),
{
    let g = group_with(Some(p), rows);
    if rows.len() == 0 {
        assert(g =~= seq![p]);
        assert(ids_of(rows).to_set() =~= Set::<int>::empty());
        assert(ids_of(rows).to_set().remove(p.id) =~= Set::<int>::empty());
        assert(p.visits + visits_of(rows, p.id) =~= p.visits);
    } else {
        let h = rows[0];
        let t = rows.drop_first();
        let idst = ids_of(t);
        assert(ids_of(rows)[0] == h.id);
        assert(ids_of(rows).drop_first() =~= idst);
        lemma_to_set_cons(ids_of(rows));
        assert(sorted_by_id(t)) by {
            assert forall|i: int, j: int| 0 <= i <= j < t.len() implies t[i].id <= t[j].id by {
                assert(t[i] == rows[i + 1] && t[j] == rows[j + 1]);
            }
        }
        assert forall|i: int| 0 <= i < t.len() implies h.id <= #[trigger] t[i].id by {
            assert(t[i] == rows[i + 1]);
        }
        if h.id == p.id {
            let p2 = append_row_visit(p, h);
            lemma_group_with_sorted(p2, t);
            let g2 = group_with(Some(p2), t);
            assert(g =~= g2);
            assert(ids_of(rows).to_set().remove(p.id) =~= idst.to_set().remove(p.id));
            assert(visits_of(rows, p.id) == seq![row_visit(h)] + visits_of(t, p.id));
            assert(p.visits + (seq![row_visit(h)] + visits_of(t, p.id)) =~= p.visits.push(
                row_visit(h),
            ) + visits_of(t, p.id));
            assert forall|j: int| 1 <= j < g.len() implies #[trigger] g[j].visits == visits_of(
                rows,
                g[j].id,
            ) by {
                assert(g[j].id > g[0].id);
                assert(visits_of(rows, g[j].id) == visits_of(t, g[j].id));
            }
        } else {
            assert(p.id < h.id);
            let e = entity_of(h);
            lemma_group_with_sorted(e, t);
            let g2 = group_with(Some(e), t);
            assert(g =~= seq![p] + g2);
            assert(g[0] == p);
            assert forall|i: int| 0 <= i < rows.len() implies #[trigger] rows[i].id != p.id by {
                if i > 0 {
                    assert(rows[i] == t[i - 1]);
                }
            }
            lemma_visits_of_absent(rows, p.id);
            assert(p.visits + visits_of(rows, p.id) =~= p.visits);
            assert(visits_of(rows, h.id) == seq![row_visit(h)] + visits_of(t, h.id));
            assert(e.visits + visits_of(t, h.id) =~= seq![row_visit(h)] + visits_of(t, h.id));
            assert forall|j: int| 1 <= j < g.len() implies #[trigger] g[j].visits == visits_of(
                rows,
                g[j].id,
            ) by {
                assert(g[j] == g2[j - 1]);
                if j == 1 {
                    assert(g2[0].visits == e.visits + visits_of(t, h.id));
                    assert(g2[0].id == h.id);
                } else {
                    assert(g2[j - 1].id > g2[0].id);
                    assert(g2[j - 1].id != h.id);
                    assert(visits_of(rows, g2[j - 1].id) == visits_of(t, g2[j - 1].id));
                }
            }
            assert forall|j1: int, j2: int| 0 <= j1 < j2 < g.len() implies g[j1].id < g[j2].id by {
                if j1 == 0 {
                    assert(g[j2] == g2[j2 - 1]);
                    if j2 > 1 {
                        assert(g2[j2 - 1].id > g2[0].id);
                    }
                    assert(g2[0].id == h.id > p.id);
                } else {
                    assert(g[j1] == g2[j1 - 1] && g[j2] == g2[j2 - 1]);
                }
            }
            assert(!idst.to_set().contains(p.id)) by {
                if idst.to_set().contains(p.id) {
                    let i = choose|i: int| 0 <= i < idst.len() && idst[i] == p.id;
                    assert(t[i].id == p.id);
                }
            }
            assert(ids_of(rows).to_set().remove(p.id) =~= idst.to_set().insert(h.id));
            lemma_insert_remove_len(idst.to_set(), h.id);
        }
    }
}

/// Law: grouping a sorted row stream emits exactly one entity per distinct
/// key, in strictly ascending key order; each entity's key is carried by
/// some row, and its visit list equals, in input order, exactly the visits
/// of the rows carrying its key.
pub proof fn lemma_grouping_correct(rows: Seq<RowV>)
    requires
        sorted_by_id(rows),
        nonneg_ids(rows),
    ensures
        group(rows).len() == ids_of(rows).to_set().len(),
        forall|j: int|
            0 <= j < group(rows).len() ==> #[trigger] group(rows)[j].visits == visits_of(
                rows,
                group(rows)[j].id,
            ),
        forall|j1: int, j2: int|
            0 <= j1 < j2 < group(rows).len() ==> group(rows)[j1].id < group(rows)[j2].id,
        forall|j: int|
            0 <= j < group(rows).len() ==> ids_of(rows).contains(#[trigger] group(rows)[j].id),
{
    let g = group(rows);
    if rows.len() == 0 {
        assert(ids_of(rows).to_set() =~= Set::<int>::empty());
    } else {
        let h = rows[0];
        let t = rows.drop_first();
        let e = entity_of(h);
        assert(sorted_by_id(t)) by {
            assert forall|i: int, j: int| 0 <= i <= j < t.len() implies t[i].id <= t[j].id by {
                assert(t[i] == rows[i + 1] && t[j] == rows[j + 1]);
            }
        }
        assert forall|i: int| 0 <= i < t.len() implies e.id <= #[trigger] t[i].id by {
            assert(t[i] == rows[i + 1]);
        }
        lemma_group_with_sorted(e, t);
        let g2 = group_with(Some(e), t);
        assert(g =~= g2);
        assert(visits_of(rows, h.id) == seq![row_visit(h)] + visits_of(t, h.id));
        assert(e.visits + visits_of(t, h.id) =~= seq![row_visit(h)] + visits_of(t, h.id));
        assert forall|j: int| 1 <= j < g.len() implies #[trigger] g[j].visits == visits_of(
            rows,
            g[j].id,
        ) by {
            assert(g[j].id > g[0].id);
            assert(g[j].id != h.id);
            assert(visits_of(rows, g[j].id) == visits_of(t, g[j].id));
        }
        let idst = ids_of(t);
        assert(ids_of(rows)[0] == h.id);
        assert(ids_of(rows).drop_first() =~= idst);
        lemma_to_set_cons(ids_of(rows));
        lemma_insert_remove_len(idst.to_set(), h.id);
        lemma_group_with_nonempty(None, rows);
        assert forall|j: int| 0 <= j < g.len() implies ids_of(rows).contains(
            #[trigger] g[j].id,
        ) by {
            if !ids_of(rows).contains(g[j].id) {
                assert forall|i: int| 0 <= i < rows.len() implies #[trigger] rows[i].id != g[j].id by {
                    assert(ids_of(rows)[i] == rows[i].id);
                }
                lemma_visits_of_absent(rows, g[j].id);
                assert(g[j].visits.len() >= 1);
            }
        }
    }
}

proof fn lemma_group_with_nonempty(acc: Option<PlaceV>, rows: Seq<RowV>)
    requires
        acc matches Some(p) ==> p.visits.len() >= 1,
    ensures
        forall|j: int|
            0 <= j < group_with(acc, rows).len() ==> #[trigger] group_with(acc, rows)[j].visits.len()
                >= 1,
    decreases rows.len(),
{
    if rows.len() == 0 {
    } else {
        let step = feed(acc, rows[0]);
        lemma_group_with_nonempty(step.1, rows.drop_first());
        let g = group_with(acc, rows);
        let g2 = group_with(step.1, rows.drop_first());
        assert forall|j: int| 0 <= j < g.len() implies #[trigger] g[j].visits.len() >= 1 by {
            match step.0 {
                Some(p) => {
                    if j > 0 {
                        assert(g[j] == g2[j - 1]);
                    }
                },
                None => {
                    assert(g[j] == g2[j]);
                },
            }
        }
    }
}

/// Law: every entity that grouping emits has at least one visit, whatever
/// the input rows.
pub proof fn lemma_group_nonempty_visits(rows: Seq<RowV>)
    ensures
        forall|j: int|
            0 <= j < group(rows).len() ==> #[trigger] group(rows)[j].visits.len() >= 1,
{
    lemma_group_with_nonempty(None, rows);
}

} // verus!
