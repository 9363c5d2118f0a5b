//! The aggregate state and its three operations: ingest, navigate, show.

use vstd::prelude::*;
use crate::record::{Record, RecordView};

verus! {

/// A direction for one cursor move.
pub enum Direction {
    First,
    Previous,
    Next,
    Last,
}

/// The mathematical image of the store: every ingested record in arrival
/// order, and the cursor into that order.
///
/// The cursor is 1-indexed: `0` means "nothing selected", and `k > 0` selects
/// the `k`-th entry of `entries`.
#[verifier::ext_equal]
pub ghost struct StoreView {
    pub entries: Seq<RecordView>,
    pub cursor: int,
}

impl StoreView {
    /// The store's invariant: the cursor never leaves `[0, entries.len()]`.
    pub open spec fn wf(self) -> bool {
        0 <= self.cursor <= self.entries.len()
    }
}

/// The state at process start: nothing stored, nothing selected.
pub open spec fn empty_store() -> StoreView {
    StoreView { entries: Seq::empty(), cursor: 0 }
}

/// The cursor after one move in direction `d`, from cursor `cursor` with `n`
/// stored entries. Every arm clamps: no move leaves `[0, n]` when the old
/// cursor was inside it.
pub open spec fn nav_cursor(d: Direction, cursor: int, n: int) -> int {
    match d {
        Direction::First => if n > 0 { 1 } else { cursor },
        Direction::Previous => if cursor > 1 { cursor - 1 } else { cursor },
        Direction::Next => if cursor < n { cursor + 1 } else { cursor },
        Direction::Last => n,
    }
}

/// The state after one ingest: the record appended to the order, and the
/// newest entry selected.
pub open spec fn ingested(s: StoreView, r: RecordView) -> StoreView {
    StoreView { entries: s.entries.push(r), cursor: s.entries.len() as int + 1 }
}

/// The state after one navigation step: the entries kept, the cursor moved.
pub open spec fn navigated(s: StoreView, d: Direction) -> StoreView {
    StoreView { entries: s.entries, cursor: nav_cursor(d, s.cursor, s.entries.len() as int) }
}

/// The record that a lookup of `id` among `entries` yields: the latest entry
/// carrying that id. A duplicate ingest overwrites the stored value for its
/// id, so every occurrence of an id resolves to the newest record with it.
pub open spec fn latest_with_id(entries: Seq<RecordView>, id: Seq<char>) -> RecordView
    decreases entries.len(),
{
    if entries.len() == 0 {
        arbitrary()
    } else if entries.last().id == id {
        entries.last()
    } else {
        latest_with_id(entries.drop_last(), id)
    }
}

/// What Show yields in state `s`: no selection when the cursor is outside
/// `[1, entries.len()]`, otherwise the latest record carrying the id found at
/// the cursor's position.
pub open spec fn selection(s: StoreView) -> Option<RecordView> {
    if 1 <= s.cursor && s.cursor <= s.entries.len() {
        Some(latest_with_id(s.entries, s.entries[s.cursor - 1].id))
    } else {
        None
    }
}

/// The aggregate state: the records in arrival order and the cursor.
///
/// The store itself is single-threaded; a caller that shares one store among
/// concurrent requests puts it behind one exclusive lock and performs each
/// operation while holding that lock, so that the three fields of the view
/// are always read and written together.
pub struct Store {
    entries: Vec<Record>,
    cursor: usize,
}

impl View for Store {
    type V = StoreView;

    closed spec fn view(&self) -> StoreView {
        StoreView { entries: self.entries.deep_view(), cursor: self.cursor as int }
    }
}

/// The index of the latest entry of `entries` whose id equals `id`, given
/// that at least one entry carries it.
fn latest_index(entries: &Vec<Record>, id: &String) -> (i: usize)
    requires
        exists|j: int| 0 <= j < entries@.len() && entries@[j].id@ == id@,
    ensures
        i < entries@.len(),
        entries@[i as int].id@ == id@,
        forall|j: int| i < j < entries@.len() ==> entries@[j].id@ != id@,
{
    let mut k = entries.len() - 1;
    loop
        invariant
            k < entries@.len(),
            exists|j: int| 0 <= j <= k && entries@[j].id@ == id@,
            forall|j: int| k < j < entries@.len() ==> entries@[j].id@ != id@,
        decreases k,
    {
        if entries[k].id == *id {
            return k;
        }
        proof {
            let j = choose|j: int| 0 <= j <= k && entries@[j].id@ == id@;
            assert(j < k);
        }
        k = k - 1;
    }
}

/// The latest entry with a given id is the one at the last position carrying
/// that id.
pub proof fn lemma_latest_is_at(s: Seq<RecordView>, id: Seq<char>, i: int)
    requires
        0 <= i < s.len(),
        s[i].id == id,
        forall|j: int| i < j < s.len() ==> s[j].id != id,
    ensures
        latest_with_id(s, id) == s[i],
    decreases s.len(),
{
    if i < s.len() - 1 {
        lemma_latest_is_at(s.drop_last(), id, i);
    }
}

impl Store {
    /// The store's invariant, stated over its view.
    pub open spec fn wf(&self) -> bool {
        self@.wf()
    }

    /// Creates the store of process start: empty, with nothing selected.
    pub fn new() -> (s: Store)
        ensures
            s@ == empty_store(),
    {
        let s = Store { entries: Vec::new(), cursor: 0 };
        proof {
            assert(s@.entries =~= empty_store().entries);
            assert(s@ =~= empty_store());
        }
        s
    }

    /// How many records have arrived so far.
    pub fn len(&self) -> (n: usize)
        ensures
            n == self@.entries.len(),
    {
        self.entries.len()
    }

    /// The current cursor position.
    pub fn cursor(&self) -> (c: usize)
        ensures
            c == self@.cursor,
    {
        self.cursor
    }

    /// Ingest: store `r` under its id (a later record with the same id
    /// overwrites the earlier one on lookup), append its id to the arrival
    /// order unconditionally, and select the newest entry. Never fails.
    pub fn ingest(&mut self, r: Record)
        ensures
            final(self)@ == ingested(old(self)@, r@),
            final(self).wf(),
    {
        let ghost r_view = r@;
        self.entries.push(r);
        self.cursor = self.entries.len();
        proof {
            assert(self@.entries =~= ingested(old(self)@, r_view).entries);
            assert(self@ =~= ingested(old(self)@, r_view));
        }
    }

    /// Show: the record the cursor selects, or `None` when nothing is
    /// selected. Read-only.
    pub fn show(&self) -> (r: Option<Record>)
        ensures
            r.deep_view() == selection(self@),
    {
        if self.cursor == 0 || self.cursor > self.entries.len() {
            return None;
        }
        let pos = self.cursor - 1;
        let id = &self.entries[pos].id;
        proof {
            assert(0 <= pos < self.entries@.len() && self.entries@[pos as int].id@ == id@);
        }
        let i = latest_index(&self.entries, id);
        proof {
            lemma_latest_is_at(self@.entries, id@, i as int);
        }
        Some(self.entries[i].clone())
    }

    /// Navigate: move the cursor one step in direction `d`, then return what
    /// Show would return from the new state. The stored records are
    /// untouched, and a move that would leave the valid range is a no-op.
    pub fn navigate(&mut self, d: Direction) -> (r: Option<Record>)
        ensures
            final(self)@ == navigated(old(self)@, d),
            old(self).wf() ==> final(self).wf(),
            r.deep_view() == selection(final(self)@),
    {
        let n = self.entries.len();
        match d {
            Direction::First => {
                if n > 0 {
                    self.cursor = 1;
                }
            }
            Direction::Previous => {
                if self.cursor > 1 {
                    self.cursor = self.cursor - 1;
                }
            }
            Direction::Next => {
                if self.cursor < n {
                    self.cursor = self.cursor + 1;
                }
            }
            Direction::Last => {
                self.cursor = n;
            }
        }
        proof {
            assert(self@ =~= navigated(old(self)@, d));
        }
        self.show()
    }
}

} // verus!
