//! Laws of the store: what whole sequences of operations do.

use vstd::prelude::*;
use crate::record::RecordView;
use crate::store::{
    Direction, StoreView, empty_store, ingested, latest_with_id, lemma_latest_is_at, navigated,
    selection,
};

verus! {

/// The state after ingesting every record of `rs`, in order, from state `s`.
pub open spec fn ingest_all(s: StoreView, rs: Seq<RecordView>) -> StoreView
    decreases rs.len(),
{
    if rs.len() == 0 {
        s
    } else {
        ingested(ingest_all(s, rs.drop_last()), rs.last())
    }
}

/// The state after navigating every direction of `ds`, in order, from `s`.
pub open spec fn navigate_all(s: StoreView, ds: Seq<Direction>) -> StoreView
    decreases ds.len(),
{
    if ds.len() == 0 {
        s
    } else {
        navigated(navigate_all(s, ds.drop_last()), ds.last())
    }
}

/// `k` moves in the same direction `d`.
pub open spec fn repeat_direction(d: Direction, k: nat) -> Seq<Direction> {
    Seq::new(k, |i: int| d)
}

/// No two records of `rs` share an id.
pub open spec fn distinct_ids(rs: Seq<RecordView>) -> bool {
    forall|i: int, j: int| 0 <= i < j < rs.len() ==> rs[i].id != rs[j].id
}

/// Ingesting a sequence of records appends exactly those records, in arrival
/// order, and after a non-empty sequence the cursor sits on the newest entry.
pub proof fn lemma_ingest_advances_cursor(s: StoreView, rs: Seq<RecordView>)
    ensures
        ingest_all(s, rs).entries == s.entries + rs,
        rs.len() > 0 ==> ingest_all(s, rs).cursor == s.entries.len() + rs.len(),
        rs.len() == 0 ==> ingest_all(s, rs) == s,
    decreases rs.len(),
{
    if rs.len() == 0 {
        assert(ingest_all(s, rs).entries =~= s.entries + rs);
    } else {
        lemma_ingest_advances_cursor(s, rs.drop_last());
        assert(ingest_all(s, rs).entries =~= s.entries + rs);
    }
}

/// After `N` ingests into the empty store the cursor equals `N`, and Show
/// yields the `N`-th (newest) ingested record.
pub proof fn lemma_show_after_ingests(rs: Seq<RecordView>)
    requires
        rs.len() > 0,
    ensures
        ingest_all(empty_store(), rs).entries == rs,
        ingest_all(empty_store(), rs).cursor == rs.len(),
        selection(ingest_all(empty_store(), rs)) == Some(rs.last()),
{
    lemma_ingest_advances_cursor(empty_store(), rs);
    assert(Seq::<RecordView>::empty() + rs =~= rs);
    assert(latest_with_id(rs, rs.last().id) == rs.last());
}

/// No sequence of navigations moves the cursor outside `[0, N]`, where `N`
/// is the number of stored records, and none changes the stored records.
pub proof fn lemma_navigate_keeps_bounds(s: StoreView, ds: Seq<Direction>)
    requires
        s.wf(),
    ensures
        navigate_all(s, ds).wf(),
        navigate_all(s, ds).entries == s.entries,
    decreases ds.len(),
{
    if ds.len() > 0 {
        lemma_navigate_keeps_bounds(s, ds.drop_last());
    }
}

/// Once the cursor sits on the first record, any number of Previous moves
/// leaves the state exactly as it is.
pub proof fn lemma_previous_stays_at_first(s: StoreView, k: nat)
    requires
        s.wf(),
        s.cursor == 1,
    ensures
        navigate_all(s, repeat_direction(Direction::Previous, k)) == s,
    decreases k,
{
    if k > 0 {
        assert(repeat_direction(Direction::Previous, k).drop_last() =~= repeat_direction(
            Direction::Previous,
            (k - 1) as nat,
        ));
        lemma_previous_stays_at_first(s, (k - 1) as nat);
    }
}

/// Once the cursor sits on the last record, any number of Next moves leaves
/// the state exactly as it is.
pub proof fn lemma_next_stays_at_last(s: StoreView, k: nat)
    requires
        s.wf(),
        s.cursor == s.entries.len(),
    ensures
        navigate_all(s, repeat_direction(Direction::Next, k)) == s,
    decreases k,
{
    if k > 0 {
        assert(repeat_direction(Direction::Next, k).drop_last() =~= repeat_direction(
            Direction::Next,
            (k - 1) as nat,
        ));
        lemma_next_stays_at_last(s, (k - 1) as nat);
    }
}

/// When no two stored records share an id, placing the cursor on position
/// `k + 1` selects exactly the `k`-th stored record.
pub proof fn lemma_every_record_retrievable(rs: Seq<RecordView>, k: int)
    requires
        distinct_ids(rs),
        0 <= k < rs.len(),
    ensures
        selection(StoreView { entries: rs, cursor: k + 1 }) == Some(rs[k]),
{
    lemma_latest_is_at(rs, rs[k].id, k);
}

/// First followed by `k` Next moves puts the cursor on position `k + 1`,
/// whenever at least `k + 1` records are stored.
pub proof fn lemma_navigation_reaches_position(s: StoreView, k: int)
    requires
        s.wf(),
        0 <= k < s.entries.len(),
    ensures
        navigate_all(
            s,
            seq![Direction::First] + repeat_direction(Direction::Next, k as nat),
        ).entries == s.entries,
        navigate_all(
            s,
            seq![Direction::First] + repeat_direction(Direction::Next, k as nat),
        ).cursor == k + 1,
    decreases k,
{
    let ds = seq![Direction::First] + repeat_direction(Direction::Next, k as nat);
    lemma_navigate_keeps_bounds(s, ds);
    if k == 0 {
        assert(ds =~= seq![Direction::First]);
        assert(ds.drop_last() =~= Seq::<Direction>::empty());
    } else {
        let prefix = seq![Direction::First] + repeat_direction(Direction::Next, (k - 1) as nat);
        assert(ds.drop_last() =~= prefix);
        assert(ds.last() == Direction::Next);
        lemma_navigation_reaches_position(s, k - 1);
    }
}

/// No ingested record is ever lost: after any number of ingests with
/// distinct ids into the empty store, each one is reachable by navigation
/// (First, then Next as often as its position asks) and shown intact.
pub proof fn lemma_all_ingested_records_visible(rs: Seq<RecordView>, k: int)
    requires
        distinct_ids(rs),
        0 <= k < rs.len(),
    ensures
        ({
            let s = ingest_all(empty_store(), rs);
            let t = navigate_all(
                s,
                seq![Direction::First] + repeat_direction(Direction::Next, k as nat),
            );
            t.entries == rs && t.cursor == k + 1 && selection(t) == Some(rs[k])
        }),
{
    lemma_show_after_ingests(rs);
    let s = ingest_all(empty_store(), rs);
    lemma_navigation_reaches_position(s, k);
    lemma_every_record_retrievable(rs, k);
}

} // verus!
