//! The history store: captured entries in capture order (oldest first), with
//! append, delete by position, and a newest-first snapshot for display.

use vstd::prelude::*;
use crate::entry::{ClipboardEntry, EntryView};

verus! {

/// Why a history operation was refused.
#[derive(Clone, Copy, Debug, PartialEq, Eq, Structural)]
pub enum HistoryError {
    /// The index does not name a stored entry.
    IndexOutOfRange,
}

/// Every entry of `s` satisfies the entry invariant.
pub open spec fn all_valid(s: Seq<EntryView>) -> bool {
    forall|i: int| 0 <= i < s.len() ==> (#[trigger] s[i]).valid()
}

/// The views of a sequence of entries.
pub open spec fn views(v: Seq<ClipboardEntry>) -> Seq<EntryView> {
    v.map_values(|e: ClipboardEntry| e@)
}

pub struct HistoryStore {
    entries: Vec<ClipboardEntry>,
}

impl View for HistoryStore {
    type V = Seq<EntryView>;

    closed spec fn view(&self) -> Seq<EntryView> {
        views(self.entries@)
    }
}

impl HistoryStore {
    #[verifier::type_invariant]
    spec fn inv(self) -> bool {
        all_valid(self@)
    }

    /// An empty history.
    pub fn new() -> (r: HistoryStore)
        ensures
            r@ == Seq::<EntryView>::empty(),
    {
        let r = HistoryStore { entries: Vec::new() };
        assert(r@ =~= Seq::<EntryView>::empty());
        r
    }

    pub fn len(&self) -> (r: usize)
        ensures
            r == self@.len(),
            all_valid(self@),
    {
        proof {
            use_type_invariant(self);
        }
        self.entries.len()
    }

    pub fn is_empty(&self) -> (r: bool)
        ensures
            r == (self@.len() == 0),
    {
        self.entries.len() == 0
    }

    /// The entry at storage position `index`, if there is one.
    pub fn get(&self, index: usize) -> (r: Option<&ClipboardEntry>)
        ensures
            index < self@.len() ==> (r matches Some(e) && e@ == self@[index as int]),
            index >= self@.len() ==> r is None,
    {
        if index < self.entries.len() {
            Some(&self.entries[index])
        } else {
            None
        }
    }

    /// Adds `entry` after all stored entries. Equal entries are kept side by side.
    pub fn append(&mut self, entry: ClipboardEntry)
        ensures
            final(self)@ == old(self)@.push(entry@),
            final(self)@ == apply(old(self)@, HistoryOp::Append(entry@)),
            all_valid(final(self)@),
    {
        proof {
            use_type_invariant(&*self);
        }
        entry.check_valid();
        let mut v: Vec<ClipboardEntry> = Vec::new();
        std::mem::swap(&mut v, &mut self.entries);
        v.push(entry);
        assert(views(v@) =~= old(self)@.push(entry@));
        self.entries = v;
    }

    /// Removes and returns the entry at storage position `index`; an index
    /// past the end leaves the history unchanged and is reported.
    pub fn delete_at(&mut self, index: usize) -> (r: Result<ClipboardEntry, HistoryError>)
        ensures
            index < old(self)@.len() ==> (r matches Ok(e) && e@ == old(self)@[index as int]
                && final(self)@ == old(self)@.remove(index as int)),
            index >= old(self)@.len() ==> (r matches Err(HistoryError::IndexOutOfRange)
                && final(self)@ == old(self)@),
            final(self)@ == apply(old(self)@, HistoryOp::Delete(index as nat)),
            all_valid(final(self)@),
    {
        proof {
            use_type_invariant(&*self);
        }
        if index < self.entries.len() {
            let mut v: Vec<ClipboardEntry> = Vec::new();
            std::mem::swap(&mut v, &mut self.entries);
            let e = v.remove(index);
            let ghost rest = old(self)@.remove(index as int);
            assert(views(v@) =~= rest);
            assert forall|j: int| 0 <= j < rest.len() implies (#[trigger] rest[j]).valid() by {
                if j < index {
                    assert(rest[j] == old(self)@[j]);
                } else {
                    assert(rest[j] == old(self)@[j + 1]);
                }
            }
            self.entries = v;
            Ok(e)
        } else {
            Err(HistoryError::IndexOutOfRange)
        }
    }

    /// The storage position of the entry shown at `display_index` in the
    /// newest-first snapshot.
    pub fn storage_index(&self, display_index: usize) -> (r: Option<usize>)
        ensures
            display_index < self@.len() ==> r == Some((self@.len() - 1 - display_index) as usize),
            display_index >= self@.len() ==> r is None,
    {
        let n = self.entries.len();
        if display_index < n {
            Some(n - 1 - display_index)
        } else {
            None
        }
    }

    /// The stored entries, newest first. The history is not changed.
    pub fn snapshot_reversed(&self) -> (r: Vec<ClipboardEntry>)
        ensures
            views(r@) == self@.reverse(),
    {
        let n = self.entries.len();
        let mut r: Vec<ClipboardEntry> = Vec::new();
        let mut k: usize = 0;
        while k < n
            invariant
                n == self.entries@.len(),
                k <= n,
                r@.len() == k,
                forall|j: int| 0 <= j < k ==> (#[trigger] r@[j])@ == self.entries@[n - 1 - j]@,
            decreases n - k,
        {
            r.push(self.entries[n - 1 - k].clone());
            k = k + 1;
        }
        assert(views(r@) =~= self@.reverse());
        r
    }
}

/// One operation on a history, as a value.
pub enum HistoryOp {
    Append(EntryView),
    Delete(nat),
}

/// The history after `op`, as `append` and `delete_at` change it.
pub open spec fn apply(s: Seq<EntryView>, op: HistoryOp) -> Seq<EntryView> {
    match op {
        HistoryOp::Append(e) => s.push(e),
        HistoryOp::Delete(i) => if i < s.len() {
            s.remove(i as int)
        } else {
            s
        },
    }
}

/// The history after running `ops` in order on an empty history.
pub open spec fn replay(ops: Seq<HistoryOp>) -> Seq<EntryView>
    decreases ops.len(),
{
    if ops.len() == 0 {
        Seq::empty()
    } else {
        apply(replay(ops.drop_last()), ops.last())
    }
}

/// The number of appends in `ops`.
pub open spec fn appends(ops: Seq<HistoryOp>) -> nat
    decreases ops.len(),
{
    if ops.len() == 0 {
        0
    } else {
        appends(ops.drop_last()) + if ops.last() is Append {
            1nat
        } else {
            0nat
        }
    }
}

/// The number of deletes in `ops` that named a stored entry when they ran.
pub open spec fn deletes_done(ops: Seq<HistoryOp>) -> nat
    decreases ops.len(),
{
    if ops.len() == 0 {
        0
    } else {
        deletes_done(ops.drop_last()) + match ops.last() {
            HistoryOp::Delete(i) => if i < replay(ops.drop_last()).len() {
                1nat
            } else {
                0nat
            },
            HistoryOp::Append(_) => 0nat,
        }
    }
}

/// After any sequence of appends and deletes on an empty history, the history
/// holds as many entries as there were appends less the deletes that succeeded,
/// and so does its newest-first snapshot, its exact reverse.
pub proof fn lemma_history_length(ops: Seq<HistoryOp>)
    ensures
        replay(ops).len() + deletes_done(ops) == appends(ops),
        replay(ops).reverse().len() == replay(ops).len(),
        forall|k: int|
            0 <= k < replay(ops).len() ==> #[trigger] replay(ops).reverse()[k] == replay(ops)[replay(
                ops,
            ).len() - 1 - k],
    decreases ops.len(),
{
    if ops.len() > 0 {
        lemma_history_length(ops.drop_last());
    }
}

/// Deleting the entry at storage position `i` takes exactly that entry out of
/// the newest-first snapshot, keeping the others in their order; where no other
/// entry equals it, the snapshot no longer holds it.
pub proof fn lemma_delete_then_snapshot(s: Seq<EntryView>, i: int)
    requires
        0 <= i < s.len(),
    ensures
        s.remove(i).reverse() == s.reverse().remove(s.len() - 1 - i),
        (forall|j: int| 0 <= j < s.len() && j != i ==> s[j] != s[i]) ==> !s.remove(
            i,
        ).reverse().contains(s[i]),
{
    let a = s.remove(i).reverse();
    let b = s.reverse().remove(s.len() - 1 - i);
    assert(a.len() == b.len());
    assert forall|k: int| 0 <= k < a.len() implies a[k] == b[k] by {
        let n = s.len();
        if k < n - 1 - i {
            assert(a[k] == s.remove(i)[n - 2 - k]);
            assert(s.remove(i)[n - 2 - k] == s[n - 1 - k]);
        } else {
            assert(a[k] == s.remove(i)[n - 2 - k]);
            assert(s.remove(i)[n - 2 - k] == s[n - 2 - k]);
        }
    }
    assert(a =~= b);
    if forall|j: int| 0 <= j < s.len() && j != i ==> s[j] != s[i] {
        if a.contains(s[i]) {
            let k = choose|k: int| 0 <= k < a.len() && a[k] == s[i];
            let n = s.len();
            if k < n - 1 - i {
                assert(a[k] == s[n - 1 - k]);
            } else {
                assert(a[k] == s[n - 2 - k]);
            }
        }
    }
}

} // verus!
