//! The snapshot store: the most recent complete set of discovered pull requests.

use vstd::prelude::*;
use crate::record::{records_view, MergeSelector, PullRequestRecord, RecordView, SelectorView};
use crate::text::{contains_string, strings_view};

verus! {

/// The records of `snapshot` that `selector` picks, in snapshot order.
pub open spec fn selected(snapshot: Seq<RecordView>, selector: SelectorView) -> Seq<RecordView> {
    snapshot.filter(|r: RecordView| selector.selects(r))
}

/// Copies a list of records.
pub fn copy_records(records: &Vec<PullRequestRecord>) -> (copy: Vec<PullRequestRecord>)
    ensures
        records_view(copy@) == records_view(records@),
{
    let mut copy: Vec<PullRequestRecord> = Vec::new();
    let mut i: usize = 0;
    while i < records.len()
        invariant
            i <= records.len(),
            copy.len() == i,
            forall|j: int| 0 <= j < i ==> copy@[j]@ == records@[j]@,
        decreases records.len() - i,
    {
        copy.push(records[i].clone());
        i += 1;
    }
    assert(records_view(copy@) =~= records_view(records@));
    copy
}

/// Picks the records that `selector` selects, keeping their order.
pub fn select_records(records: &Vec<PullRequestRecord>, selector: &MergeSelector) -> (picked: Vec<
    PullRequestRecord,
>)
    ensures
        records_view(picked@) == selected(records_view(records@), selector@),
{
    let ghost pred = |r: RecordView| selector@.selects(r);
    let mut picked: Vec<PullRequestRecord> = Vec::new();
    let mut i: usize = 0;
    while i < records.len()
        invariant
            i <= records.len(),
            pred == (|r: RecordView| selector@.selects(r)),
            records_view(picked@) == records_view(records@.take(i as int)).filter(pred),
        decreases records.len() - i,
    {
        let record = &records[i];
        proof {
            let before = records@.take(i as int);
            assert(records@.take(i + 1) =~= before.push(*record));
            assert(records_view(before.push(*record)) =~= records_view(before).push(record@));
            records_view(before).lemma_filter_push(record@, pred);
        }
        if selector.selects(record) {
            let ghost old_picked = picked@;
            picked.push(record.clone());
            assert(records_view(picked@) =~= records_view(old_picked).push(record@));
        }
        i += 1;
    }
    assert(records@.take(records.len() as int) =~= records@);
    picked
}

/// The titles of a sequence of records, in order.
pub open spec fn titles(records: Seq<RecordView>) -> Seq<Seq<char>> {
    records.map_values(|r: RecordView| r.title)
}

/// Counts the titles that occur among `records`, each once.
pub fn count_distinct_titles(records: &Vec<PullRequestRecord>) -> (n: usize)
    ensures
        n == titles(records_view(records@)).to_set().len(),
{
    let ghost all = titles(records_view(records@));
    let mut seen: Vec<String> = Vec::new();
    let mut i: usize = 0;
    proof {
        assert(strings_view(seen@) =~= Seq::<Seq<char>>::empty());
        assert(all.take(0) =~= Seq::<Seq<char>>::empty());
        assert(strings_view(seen@).to_set() =~= all.take(0).to_set());
    }
    while i < records.len()
        invariant
            i <= records.len(),
            seen.len() <= i,
            all == titles(records_view(records@)),
            strings_view(seen@).no_duplicates(),
            strings_view(seen@).to_set() == all.take(i as int).to_set(),
        decreases records.len() - i,
    {
        let title = &records[i].title;
        let ghost before = strings_view(seen@);
        proof {
            assert(all[i as int] == title@);
            assert(all.take(i + 1) =~= all.take(i as int).push(title@));
            all.take(i as int).lemma_push_to_set_commute(title@);
        }
        if !contains_string(&seen, title) {
            seen.push(title.clone());
            proof {
                assert(strings_view(seen@) =~= before.push(title@));
                before.lemma_push_to_set_commute(title@);
            }
        } else {
            assert(before.to_set().insert(title@) =~= before.to_set());
        }
        i += 1;
    }
    proof {
        assert(all.take(records.len() as int) =~= all);
        strings_view(seen@).unique_seq_to_set();
    }
    seen.len()
}

/// Holds the current snapshot. It is only ever replaced as a whole.
pub struct SnapshotStore {
    records: Vec<PullRequestRecord>,
}

impl View for SnapshotStore {
    type V = Seq<RecordView>;

    closed spec fn view(&self) -> Seq<RecordView> {
        records_view(self.records@)
    }
}

impl SnapshotStore {
    /// An empty store, as at process start.
    pub fn new() -> (store: SnapshotStore)
        ensures
            store@ == Seq::<RecordView>::empty(),
    {
        let store = SnapshotStore { records: Vec::new() };
        assert(store@ =~= Seq::<RecordView>::empty());
        store
    }

    /// Installs `records` as the snapshot; nothing of the previous one remains.
    pub fn replace(&mut self, records: Vec<PullRequestRecord>)
        ensures
            final(self)@ == records_view(records@),
            final(self)@ == applied(old(self)@, StoreOp::Replace(records_view(records@))),
    {
        self.records = records;
    }

    /// A copy of the whole snapshot.
    pub fn read_all(&self) -> (records: Vec<PullRequestRecord>)
        ensures
            records_view(records@) == self@,
            self@ == applied(self@, StoreOp::ReadAll),
    {
        copy_records(&self.records)
    }

    /// Number of records in the snapshot.
    pub fn len(&self) -> (n: usize)
        ensures
            n == self@.len(),
    {
        self.records.len()
    }

    /// Number of different titles in the snapshot.
    pub fn distinct_titles(&self) -> (n: usize)
        ensures
            n == titles(self@).to_set().len(),
    {
        count_distinct_titles(&self.records)
    }

    /// Copies of the records that `selector` picks, in snapshot order.
    pub fn select(&self, selector: &MergeSelector) -> (picked: Vec<PullRequestRecord>)
        ensures
            records_view(picked@) == selected(self@, selector@),
    {
        select_records(&self.records, selector)
    }
}

/// A whole operation on the store, as the lock around it lets one happen at a time.
pub ghost enum StoreOp {
    /// Install these records as the snapshot.
    Replace(Seq<RecordView>),
    /// Read the snapshot.
    ReadAll,
}

/// The snapshot after one operation.
pub open spec fn applied(snapshot: Seq<RecordView>, op: StoreOp) -> Seq<RecordView> {
    match op {
        StoreOp::Replace(records) => records,
        StoreOp::ReadAll => snapshot,
    }
}

/// The snapshot after a sequence of operations on a store that held `initial`.
pub open spec fn snapshot_after(initial: Seq<RecordView>, ops: Seq<StoreOp>) -> Seq<RecordView>
    decreases ops.len(),
{
    if ops.len() == 0 {
        initial
    } else {
        applied(snapshot_after(initial, ops.drop_last()), ops.last())
    }
}

/// Atomicity: in whatever order readers and writers take their turns, what a reader finds
/// is one whole snapshot, the initial one or the records of one of the replacements before
/// it, and never a mixture of two.
pub proof fn lemma_reads_see_whole_snapshots(initial: Seq<RecordView>, ops: Seq<StoreOp>)
    ensures
        snapshot_after(initial, ops) == initial || exists|k: int|
            0 <= k < ops.len() && #[trigger] ops[k] == StoreOp::Replace(snapshot_after(initial, ops)),
    decreases ops.len(),
{
    if ops.len() > 0 {
        let before = ops.drop_last();
        match ops.last() {
            StoreOp::Replace(records) => {
                assert(ops[ops.len() - 1] == StoreOp::Replace(snapshot_after(initial, ops)));
            },
            StoreOp::ReadAll => {
                lemma_reads_see_whole_snapshots(initial, before);
                if snapshot_after(initial, before) != initial {
                    let k = choose|k: int|
                        0 <= k < before.len() && #[trigger] before[k] == StoreOp::Replace(
                            snapshot_after(initial, before),
                        );
                    assert(ops[k] == before[k]);
                }
            },
        }
    }
}

} // verus!
