//! The store that collectors and the consumer share.

use crate::series::{lemma_pushed_bounded, pushed, RollingSeries};
use crate::telemetry::{
    Category, ChangedCategories, Record, Snapshot, SnapshotView, MAX_POINTS,
};
use vstd::prelude::*;

verus! {

/// A store as the contracts speak of it.
pub struct StoreView {
    /// The telemetry as last written.
    pub data: SnapshotView,
    /// The categories written since the consumer last took a copy.
    pub dirty: ChangedCategories,
    /// The number of writes so far.
    pub revision: u64,
}

/// What a poll hands to the consumer.
pub struct Polled {
    /// A copy of the telemetry.
    pub snapshot: Snapshot,
    /// The categories written since the poll before.
    pub changed: ChangedCategories,
    /// The revision at which the copy was taken.
    pub revision: u64,
}

impl StoreView {
    /// The store after one write: the record is in, its category is marked
    /// and the revision has advanced by one.
    pub open spec fn write(self, record: Record) -> StoreView {
        StoreView {
            data: self.data.with_record(record),
            dirty: self.dirty.with(record.category_spec()),
            revision: (self.revision + 1) as u64,
        }
    }

    /// The store after the writes of `records`, first to last.
    pub open spec fn write_all(self, records: Seq<Record>) -> StoreView
        decreases records.len(),
    {
        if records.len() == 0 {
            self
        } else {
            self.write_all(records.drop_last()).write(records.last())
        }
    }

    /// Whether a consumer that last saw `last_seen` has something to take.
    pub open spec fn moved_since(self, last_seen: u64) -> bool {
        self.revision != last_seen
    }

    /// The store after a poll by a consumer that last saw `last_seen`: the
    /// marks are cleared if there was something to take.
    pub open spec fn after_poll(self, last_seen: u64) -> StoreView {
        if self.moved_since(last_seen) {
            StoreView { dirty: ChangedCategories::none_spec(), ..self }
        } else {
            self
        }
    }

    /// The revision that a consumer has seen after a poll.
    pub open spec fn seen_after_poll(self, last_seen: u64) -> u64 {
        self.revision
    }
}

/// The place of the last record of `category` among `records`, if there is
/// one.
pub open spec fn last_of(records: Seq<Record>, category: Category) -> Option<int>
    decreases records.len(),
{
    if records.len() == 0 {
        None
    } else if records.last().category_spec() == category {
        Some(records.len() - 1)
    } else {
        last_of(records.drop_last(), category)
    }
}

/// The last record of a category, if there is one, is a record of that
/// category, and no record behind it is.
pub proof fn lemma_last_of(records: Seq<Record>, category: Category)
    ensures
        match last_of(records, category) {
            Some(i) => {
                &&& 0 <= i < records.len()
                &&& records[i].category_spec() == category
                &&& forall|j: int|
                    i < j < records.len() ==> (#[trigger] records[j]).category_spec() != category
            },
            None => forall|j: int|
                0 <= j < records.len() ==> (#[trigger] records[j]).category_spec() != category,
        },
    decreases records.len(),
{
    if records.len() > 0 && records.last().category_spec() != category {
        let front = records.drop_last();
        lemma_last_of(front, category);
        match last_of(front, category) {
            Some(i) => {
                assert(front[i] == records[i]);
                assert forall|j: int| i < j < records.len() implies (#[trigger] records[j]).category_spec()
                    != category by {
                    if j < front.len() {
                        assert(front[j] == records[j]);
                    }
                }
            },
            None => {
                assert forall|j: int| 0 <= j < records.len() implies (#[trigger] records[j]).category_spec()
                    != category by {
                    if j < front.len() {
                        assert(front[j] == records[j]);
                    }
                }
            },
        }
    }
}

/// Every write advances the revision by exactly one: after a run of writes
/// it has advanced by their number.
pub proof fn lemma_writes_advance(store: StoreView, records: Seq<Record>)
    requires
        store.revision + records.len() <= u64::MAX,
    ensures
        store.write_all(records).revision == store.revision + records.len(),
    decreases records.len(),
{
    if records.len() > 0 {
        lemma_writes_advance(store, records.drop_last());
    }
}

/// After a run of writes every category that was written is marked, and the
/// marks that stood before still stand.
pub proof fn lemma_writes_mark(store: StoreView, records: Seq<Record>, category: Category)
    ensures
        store.write_all(records).dirty.has_spec(category) == (store.dirty.has_spec(category)
            || last_of(records, category) is Some),
    decreases records.len(),
{
    if records.len() > 0 {
        lemma_writes_mark(store, records.drop_last(), category);
    }
}

/// After a run of writes the store shows, for memory, partitions, processes
/// and static information, what the last write to that category brought,
/// and what it showed before where the category was not written. Of the
/// cores it shows, at the front of each history, the reading of the last
/// write to them.
pub proof fn lemma_last_write_wins(store: StoreView, records: Seq<Record>)
    ensures
        store.write_all(records).data.ram_usage == (match last_of(records, Category::Memory) {
            Some(i) => records[i]->Memory_0,
            None => store.data.ram_usage,
        }),
        store.write_all(records).data.disk_usage == (match last_of(records, Category::Disks) {
            Some(i) => records[i]->Disks_0@,
            None => store.data.disk_usage,
        }),
        store.write_all(records).data.process_list == (match last_of(
            records,
            Category::Processes,
        ) {
            Some(i) => records[i]->Processes_0@,
            None => store.data.process_list,
        }),
        store.write_all(records).data.extra_infos == (match last_of(
            records,
            Category::StaticInfo,
        ) {
            Some(i) => records[i]->StaticInfo_0@,
            None => store.data.extra_infos,
        }),
        match last_of(records, Category::Cpu) {
            Some(i) => {
                let usages = records[i]->Cpu_0@;
                &&& store.write_all(records).data.cpu_usage.len() >= usages.len()
                &&& forall|k: int|
                    0 <= k < usages.len() ==> (#[trigger] store.write_all(
                        records,
                    ).data.cpu_usage[k]).len() > 0 && store.write_all(records).data.cpu_usage[k][0]
                        == usages[k]
            },
            None => store.write_all(records).data.cpu_usage == store.data.cpu_usage,
        },
    decreases records.len(),
{
    lemma_last_of(records, Category::Memory);
    lemma_last_of(records, Category::Disks);
    lemma_last_of(records, Category::Processes);
    lemma_last_of(records, Category::StaticInfo);
    lemma_last_of(records, Category::Cpu);
    if records.len() > 0 {
        let front = records.drop_last();
        lemma_last_write_wins(store, front);
        lemma_last_of(front, Category::Memory);
        lemma_last_of(front, Category::Disks);
        lemma_last_of(front, Category::Processes);
        lemma_last_of(front, Category::StaticInfo);
        lemma_last_of(front, Category::Cpu);
        assert forall|i: int| 0 <= i < front.len() implies #[trigger] front[i] == records[i] by {}
        let before = store.write_all(front);
        match records.last() {
            Record::Cpu(usages) => {
                let after = before.data.with_cpu(usages@);
                assert forall|k: int| 0 <= k < usages@.len() implies (#[trigger] after.cpu_usage[k]).len()
                    > 0 && after.cpu_usage[k][0] == usages@[k] by {
                    let window = if k < before.data.cpu_usage.len() {
                        before.data.cpu_usage[k]
                    } else {
                        Seq::empty()
                    };
                    lemma_pushed_bounded(window, usages@[k], MAX_POINTS as nat);
                }
            },
            _ => {
                assert(before.write(records.last()).data.cpu_usage =~= before.data.cpu_usage);
            },
        }
    }
}

/// A second poll right after a poll finds nothing to take.
pub proof fn lemma_poll_twice(store: StoreView, last_seen: u64)
    ensures
        !store.after_poll(last_seen).moved_since(store.seen_after_poll(last_seen)),
{
}

/// A poll after two writes to one category finds the category marked, once,
/// and, for memory, partitions, processes and static information, finds
/// what the second write brought; of the cores it finds both readings, the
/// second in front.
pub proof fn lemma_two_writes_one_poll(store: StoreView, first: Record, second: Record)
    requires
        first.category_spec() == second.category_spec(),
        store.revision + 2 <= u64::MAX,
    ensures
        store.write(first).write(second).moved_since(store.revision),
        store.write(first).write(second).dirty == store.dirty.with(second.category_spec()),
        second is Memory ==> store.write(first).write(second).data == (SnapshotView {
            ram_usage: second->Memory_0,
            ..store.data
        }),
        second is Disks ==> store.write(first).write(second).data == (SnapshotView {
            disk_usage: second->Disks_0@,
            ..store.data
        }),
        second is Processes ==> store.write(first).write(second).data == (SnapshotView {
            process_list: second->Processes_0@,
            ..store.data
        }),
        second is StaticInfo ==> store.write(first).write(second).data == (SnapshotView {
            extra_infos: second->StaticInfo_0@,
            ..store.data
        }),
        second is Cpu ==> store.write(first).write(second).data == store.data.with_cpu(
            first->Cpu_0@,
        ).with_cpu(second->Cpu_0@),
{
}

/// The snapshot with its marks and its revision.
pub struct SnapshotStore {
    data: Snapshot,
    dirty: ChangedCategories,
    tick: u64,
}

impl View for SnapshotStore {
    type V = StoreView;

    closed spec fn view(&self) -> StoreView {
        StoreView { data: self.data@, dirty: self.dirty, revision: self.tick }
    }
}

impl Default for SnapshotStore {
    fn default() -> (r: Self)
        ensures
            r.wf(),
            r@.revision == 0,
            r@.dirty == ChangedCategories::none_spec(),
            r@.data.cpu_usage == Seq::<Seq<u32>>::empty(),
    {
        SnapshotStore::new()
    }
}

impl SnapshotStore {
    /// Every history of the store keeps at most `MAX_POINTS` values.
    pub closed spec fn wf(&self) -> bool {
        self.data.bounded()
    }

    /// A store in which nothing was written yet.
    pub fn new() -> (r: Self)
        ensures
            r.wf(),
            r@.revision == 0,
            r@.dirty == ChangedCategories::none_spec(),
            r@.data.cpu_usage == Seq::<Seq<u32>>::empty(),
            r@.data.ram_usage.is_empty(),
            r@.data.disk_usage.len() == 0,
            r@.data.process_list.len() == 0,
            r@.data.extra_infos.len() == 0,
    {
        SnapshotStore { data: Snapshot::empty(), dirty: ChangedCategories::none(), tick: 0 }
    }

    /// The number of writes so far.
    pub fn revision(&self) -> (r: u64)
        ensures
            r == self@.revision,
    {
        self.tick
    }

    /// The categories written since the consumer last took a copy.
    pub fn dirty(&self) -> (r: ChangedCategories)
        ensures
            r == self@.dirty,
    {
        self.dirty
    }

    /// A copy of the telemetry.
    pub fn read(&self) -> (r: Snapshot)
        requires
            self.wf(),
        ensures
            r@ == self@.data,
            r.bounded(),
    {
        self.data.duplicate()
    }

    /// Adds one reading of the cores to their histories.
    fn write_cpu(&mut self, usages: &Vec<u32>)
        requires
            old(self).wf(),
        ensures
            final(self).wf(),
            final(self)@.data == old(self)@.data.with_cpu(usages@),
            final(self)@.dirty == old(self)@.dirty,
            final(self)@.revision == old(self)@.revision,
    {
        let ghost before = self.data@.cpu_usage;
        while self.data.cpu_usage.len() < usages.len()
            invariant
                self.data.bounded(),
                self.data.cpu_usage@.len() >= before.len(),
                self.data.ram_usage == old(self).data.ram_usage,
                self.data.disk_usage == old(self).data.disk_usage,
                self.data.process_list == old(self).data.process_list,
                self.data.extra_infos == old(self).data.extra_infos,
                self.dirty == old(self).dirty,
                self.tick == old(self).tick,
                before == old(self).data@.cpu_usage,
                forall|k: int|
                    0 <= k < self.data.cpu_usage@.len() ==> (#[trigger] self.data.cpu_usage@[k])@
                        == (if k < before.len() {
                        before[k]
                    } else {
                        Seq::empty()
                    }),
                self.data.cpu_usage@.len() <= usages@.len() || self.data.cpu_usage@.len()
                    == before.len(),
            decreases usages@.len() - self.data.cpu_usage@.len(),
        {
            self.data.cpu_usage.push(RollingSeries::new(MAX_POINTS));
        }
        let mut i: usize = 0;
        while i < usages.len()
            invariant
                i <= usages@.len(),
                usages@.len() <= self.data.cpu_usage@.len(),
                self.data.bounded(),
                self.data.ram_usage == old(self).data.ram_usage,
                self.data.disk_usage == old(self).data.disk_usage,
                self.data.process_list == old(self).data.process_list,
                self.data.extra_infos == old(self).data.extra_infos,
                self.dirty == old(self).dirty,
                self.tick == old(self).tick,
                before == old(self).data@.cpu_usage,
                self.data.cpu_usage@.len() == (if usages@.len() > before.len() {
                    usages@.len()
                } else {
                    before.len()
                }),
                forall|k: int|
                    0 <= k < self.data.cpu_usage@.len() ==> (#[trigger] self.data.cpu_usage@[k])@
                        == (if k < i {
                        pushed(
                            if k < before.len() {
                                before[k]
                            } else {
                                Seq::empty()
                            },
                            usages@[k],
                            MAX_POINTS as nat,
                        )
                    } else if k < before.len() {
                        before[k]
                    } else {
                        Seq::empty()
                    }),
            decreases usages@.len() - i,
        {
            self.data.cpu_usage[i].push(usages[i]);
            i = i + 1;
        }
        assert(self.data@.cpu_usage =~= old(self)@.data.with_cpu(usages@).cpu_usage);
    }

    /// Takes in what a collector gathered: the record replaces its category
    /// as a whole (a reading of the cores is added to their histories), the
    /// category is marked as changed, and the revision advances by one.
    pub fn write(&mut self, record: Record)
        requires
            old(self).wf(),
            old(self)@.revision < u64::MAX,
        ensures
            final(self).wf(),
            final(self)@ == old(self)@.write(record),
    {
        match record {
            Record::Cpu(usages) => {
                self.write_cpu(&usages);
                self.dirty.cpu = true;
            },
            Record::Memory(sample) => {
                self.data.ram_usage = sample;
                self.dirty.memory = true;
                assert(self.data@.cpu_usage =~= old(self).data@.cpu_usage);
            },
            Record::Disks(disks) => {
                self.data.disk_usage = disks;
                self.dirty.disks = true;
                assert(self.data@.cpu_usage =~= old(self).data@.cpu_usage);
            },
            Record::Processes(list) => {
                self.data.process_list = list;
                self.dirty.processes = true;
                assert(self.data@.cpu_usage =~= old(self).data@.cpu_usage);
            },
            Record::StaticInfo(lines) => {
                self.data.extra_infos = lines;
                self.dirty.static_info = true;
                assert(self.data@.cpu_usage =~= old(self).data@.cpu_usage);
            },
        }
        self.tick = self.tick + 1;
    }

    /// Ends one cycle of a collector. A collector that gathered nothing
    /// writes nothing, and what the store holds stays visible; so does a
    /// store whose revision cannot advance any more. Otherwise the record is
    /// written. Says whether it was.
    pub fn publish(&mut self, gathered: Option<Record>) -> (r: bool)
        requires
            old(self).wf(),
        ensures
            final(self).wf(),
            r == (gathered is Some && old(self)@.revision < u64::MAX),
            final(self)@ == (if r {
                old(self)@.write(gathered->Some_0)
            } else {
                old(self)@
            }),
    {
        match gathered {
            Some(record) => {
                if self.tick < u64::MAX {
                    self.write(record);
                    true
                } else {
                    false
                }
            },
            None => false,
        }
    }

    /// Answers a consumer that last saw the revision `last_seen`. If the
    /// revision has not moved, there is nothing to take and nothing changes.
    /// Otherwise the consumer gets a copy of the telemetry, the marks and the
    /// revision, and the marks are cleared.
    pub fn poll(&mut self, last_seen: u64) -> (r: Option<Polled>)
        requires
            old(self).wf(),
        ensures
            final(self).wf(),
            final(self)@ == old(self)@.after_poll(last_seen),
            r is Some <==> old(self)@.moved_since(last_seen),
            r matches Some(polled) ==> {
                &&& polled.snapshot@ == old(self)@.data
                &&& polled.snapshot.bounded()
                &&& polled.changed == old(self)@.dirty
                &&& polled.revision == old(self)@.revision
            },
    {
        if self.tick == last_seen {
            None
        } else {
            let polled = Polled {
                snapshot: self.data.duplicate(),
                changed: self.dirty,
                revision: self.tick,
            };
            self.dirty = ChangedCategories::none();
            Some(polled)
        }
    }
}

} // verus!
