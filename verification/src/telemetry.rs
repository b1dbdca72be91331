//! The shared snapshot: what the collectors write and what the consumer
//! polls.
//!
//! Every write replaces one category as a whole, marks it as changed and
//! advances the revision by one. A poll compares the revision with the one
//! that the consumer saw last; if it has moved, the consumer gets a copy of
//! the snapshot and the marks, and the marks are cleared.

use crate::series::{pushed, RollingSeries};
use crate::tasks::{duplicate_all, ProcessInfo};
use vstd::prelude::*;

verus! {

/// The number of values that the history of one core keeps.
pub const MAX_POINTS: usize = 30;

/// The whole, in thousandths of a percent.
pub const FULL: u32 = 100_000;

/// Memory in use. Shares are in thousandths of a percent of the capacity.
#[derive(Debug)]
pub struct MemorySample {
    pub ram_used: u32,
    pub ram_buffered: u32,
    pub swap_used: u32,
    pub swap_buffered: u32,
    pub technology: String,
    pub capacity: String,
    pub swap_capacity: String,
}

impl MemorySample {
    /// Whether this is the sample that stands before the first reading:
    /// nothing used, no labels.
    pub open spec fn is_empty(&self) -> bool {
        &&& self.ram_used == 0
        &&& self.ram_buffered == 0
        &&& self.swap_used == 0
        &&& self.swap_buffered == 0
        &&& self.technology@ == Seq::<char>::empty()
        &&& self.capacity@ == Seq::<char>::empty()
        &&& self.swap_capacity@ == Seq::<char>::empty()
    }

    /// The sample that stands before the first reading.
    pub fn empty() -> (r: Self)
        ensures
            r.is_empty(),
    {
        MemorySample {
            ram_used: 0,
            ram_buffered: 0,
            swap_used: 0,
            swap_buffered: 0,
            technology: String::new(),
            capacity: String::new(),
            swap_capacity: String::new(),
        }
    }

    /// A copy of the sample.
    pub fn duplicate(&self) -> (r: Self)
        ensures
            r == *self,
    {
        MemorySample {
            ram_used: self.ram_used,
            ram_buffered: self.ram_buffered,
            swap_used: self.swap_used,
            swap_buffered: self.swap_buffered,
            technology: self.technology.clone(),
            capacity: self.capacity.clone(),
            swap_capacity: self.swap_capacity.clone(),
        }
    }
}

/// One partition. The share in use is in thousandths of a percent.
#[derive(Debug)]
pub struct DiskSample {
    pub used: u32,
    pub filesystem: String,
    pub capacity: String,
}

/// A partition as the contracts of the readers speak of it.
pub struct DiskRow {
    pub used: u32,
    pub filesystem: Seq<char>,
    pub capacity: Seq<char>,
}

impl View for DiskSample {
    type V = DiskRow;

    open spec fn view(&self) -> DiskRow {
        DiskRow { used: self.used, filesystem: self.filesystem@, capacity: self.capacity@ }
    }
}

impl DiskSample {
    /// A copy of the sample.
    pub fn duplicate(&self) -> (r: Self)
        ensures
            r == *self,
    {
        DiskSample {
            used: self.used,
            filesystem: self.filesystem.clone(),
            capacity: self.capacity.clone(),
        }
    }
}

/// A copy of a list of partitions.
pub fn duplicate_disks(list: &Vec<DiskSample>) -> (r: Vec<DiskSample>)
    ensures
        r@ == list@,
{
    let mut r: Vec<DiskSample> = Vec::new();
    let mut i: usize = 0;
    while i < list.len()
        invariant
            i <= list@.len(),
            r@ == list@.take(i as int),
        decreases list@.len() - i,
    {
        r.push(list[i].duplicate());
        i = i + 1;
        assert(r@ =~= list@.take(i as int));
    }
    assert(list@.take(list@.len() as int) =~= list@);
    r
}

/// A copy of a list of lines.
pub fn duplicate_lines(list: &Vec<String>) -> (r: Vec<String>)
    ensures
        r@ == list@,
{
    let mut r: Vec<String> = Vec::new();
    let mut i: usize = 0;
    while i < list.len()
        invariant
            i <= list@.len(),
            r@ == list@.take(i as int),
        decreases list@.len() - i,
    {
        r.push(list[i].clone());
        i = i + 1;
        assert(r@ =~= list@.take(i as int));
    }
    assert(list@.take(list@.len() as int) =~= list@);
    r
}

/// The domains of telemetry, each written by its own collector.
#[derive(Debug, Clone, Copy, PartialEq, Eq, Structural)]
pub enum Category {
    Cpu,
    Memory,
    Disks,
    Processes,
    StaticInfo,
}

impl Category {
    /// The pause between two cycles of the category's collector, in seconds:
    /// one for static information, two for every other category.
    pub open spec fn interval_spec(self) -> u64 {
        if self == Category::StaticInfo {
            1
        } else {
            2
        }
    }

    /// The pause between two cycles of the category's collector, in seconds.
    #[verifier::when_used_as_spec(interval_spec)]
    pub fn interval(self) -> (r: u64)
        ensures
            r == self.interval_spec(),
    {
        match self {
            Category::StaticInfo => 1,
            _ => 2,
        }
    }
}

/// What one collector gathered in one cycle.
#[derive(Debug)]
pub enum Record {
    /// The usage of each core, in thousandths of a percent.
    Cpu(Vec<u32>),
    Memory(MemorySample),
    Disks(Vec<DiskSample>),
    Processes(Vec<ProcessInfo>),
    StaticInfo(Vec<String>),
}

impl Record {
    /// The category that the record belongs to.
    pub open spec fn category_spec(self) -> Category {
        match self {
            Record::Cpu(_) => Category::Cpu,
            Record::Memory(_) => Category::Memory,
            Record::Disks(_) => Category::Disks,
            Record::Processes(_) => Category::Processes,
            Record::StaticInfo(_) => Category::StaticInfo,
        }
    }

    /// The category that the record belongs to.
    pub fn category(&self) -> (r: Category)
        ensures
            r == self.category_spec(),
    {
        match self {
            Record::Cpu(_) => Category::Cpu,
            Record::Memory(_) => Category::Memory,
            Record::Disks(_) => Category::Disks,
            Record::Processes(_) => Category::Processes,
            Record::StaticInfo(_) => Category::StaticInfo,
        }
    }
}

/// One mark per category: written since last consumed.
#[derive(Debug, Clone, Copy, PartialEq, Eq, Structural)]
pub struct ChangedCategories {
    pub cpu: bool,
    pub memory: bool,
    pub disks: bool,
    pub processes: bool,
    pub static_info: bool,
}

impl ChangedCategories {
    /// No category is marked.
    pub open spec fn none_spec() -> Self {
        ChangedCategories {
            cpu: false,
            memory: false,
            disks: false,
            processes: false,
            static_info: false,
        }
    }

    /// No category is marked.
    #[verifier::when_used_as_spec(none_spec)]
    pub fn none() -> (r: Self)
        ensures
            r == Self::none_spec(),
    {
        ChangedCategories {
            cpu: false,
            memory: false,
            disks: false,
            processes: false,
            static_info: false,
        }
    }

    /// Whether `category` is marked.
    pub open spec fn has_spec(self, category: Category) -> bool {
        match category {
            Category::Cpu => self.cpu,
            Category::Memory => self.memory,
            Category::Disks => self.disks,
            Category::Processes => self.processes,
            Category::StaticInfo => self.static_info,
        }
    }

    /// Whether `category` is marked.
    #[verifier::when_used_as_spec(has_spec)]
    pub fn has(self, category: Category) -> (r: bool)
        ensures
            r == self.has_spec(category),
    {
        match category {
            Category::Cpu => self.cpu,
            Category::Memory => self.memory,
            Category::Disks => self.disks,
            Category::Processes => self.processes,
            Category::StaticInfo => self.static_info,
        }
    }

    /// The marks with `category` marked as well.
    pub open spec fn with(self, category: Category) -> Self {
        match category {
            Category::Cpu => ChangedCategories { cpu: true, ..self },
            Category::Memory => ChangedCategories { memory: true, ..self },
            Category::Disks => ChangedCategories { disks: true, ..self },
            Category::Processes => ChangedCategories { processes: true, ..self },
            Category::StaticInfo => ChangedCategories { static_info: true, ..self },
        }
    }
}

/// The telemetry of all categories at one moment.
pub struct Snapshot {
    /// The recent usage of each core, newest first.
    pub cpu_usage: Vec<RollingSeries<u32>>,
    pub ram_usage: MemorySample,
    pub disk_usage: Vec<DiskSample>,
    pub process_list: Vec<ProcessInfo>,
    pub extra_infos: Vec<String>,
}

/// A snapshot as the contracts speak of it.
pub struct SnapshotView {
    pub cpu_usage: Seq<Seq<u32>>,
    pub ram_usage: MemorySample,
    pub disk_usage: Seq<DiskSample>,
    pub process_list: Seq<ProcessInfo>,
    pub extra_infos: Seq<String>,
}

impl View for Snapshot {
    type V = SnapshotView;

    open spec fn view(&self) -> SnapshotView {
        SnapshotView {
            cpu_usage: Seq::new(self.cpu_usage@.len(), |i: int| self.cpu_usage@[i]@),
            ram_usage: self.ram_usage,
            disk_usage: self.disk_usage@,
            process_list: self.process_list@,
            extra_infos: self.extra_infos@,
        }
    }
}

impl SnapshotView {
    /// The histories after one more reading of every core in `usages`: each
    /// of these cores gets its value at the front of its history, a core
    /// seen for the first time starts one, and the other histories stay.
    pub open spec fn with_cpu(self, usages: Seq<u32>) -> Self {
        let cores = if usages.len() > self.cpu_usage.len() {
            usages.len()
        } else {
            self.cpu_usage.len()
        };
        SnapshotView {
            cpu_usage: Seq::new(
                cores,
                |i: int|
                    if i < usages.len() {
                        pushed(
                            if i < self.cpu_usage.len() {
                                self.cpu_usage[i]
                            } else {
                                Seq::empty()
                            },
                            usages[i],
                            MAX_POINTS as nat,
                        )
                    } else {
                        self.cpu_usage[i]
                    },
            ),
            ..self
        }
    }

    /// The snapshot after `record` replaced its category, or, for a reading
    /// of the cores, was added to their histories.
    pub open spec fn with_record(self, record: Record) -> Self {
        match record {
            Record::Cpu(usages) => self.with_cpu(usages@),
            Record::Memory(sample) => SnapshotView { ram_usage: sample, ..self },
            Record::Disks(disks) => SnapshotView { disk_usage: disks@, ..self },
            Record::Processes(list) => SnapshotView { process_list: list@, ..self },
            Record::StaticInfo(lines) => SnapshotView { extra_infos: lines@, ..self },
        }
    }
}

impl Snapshot {
    /// The snapshot that stands before the first collector has run.
    pub fn empty() -> (r: Self)
        ensures
            r@.cpu_usage == Seq::<Seq<u32>>::empty(),
            r@.ram_usage.is_empty(),
            r@.disk_usage == Seq::<DiskSample>::empty(),
            r@.process_list == Seq::<ProcessInfo>::empty(),
            r@.extra_infos == Seq::<String>::empty(),
            r.bounded(),
    {
        let r = Snapshot {
            cpu_usage: Vec::new(),
            ram_usage: MemorySample::empty(),
            disk_usage: Vec::new(),
            process_list: Vec::new(),
            extra_infos: Vec::new(),
        };
        assert(r@.cpu_usage =~= Seq::<Seq<u32>>::empty());
        r
    }

    /// Every history keeps at most `MAX_POINTS` values.
    pub open spec fn bounded(&self) -> bool {
        forall|i: int|
            0 <= i < self.cpu_usage@.len() ==> (#[trigger] self.cpu_usage@[i]).limit() == MAX_POINTS
                && self.cpu_usage@[i].wf()
    }

    /// A copy of the snapshot.
    pub fn duplicate(&self) -> (r: Self)
        ensures
            r@ == self@,
            self.bounded() ==> r.bounded(),
    {
        let mut cpu_usage: Vec<RollingSeries<u32>> = Vec::new();
        let mut i: usize = 0;
        while i < self.cpu_usage.len()
            invariant
                i <= self.cpu_usage@.len(),
                cpu_usage@.len() == i,
                forall|k: int|
                    0 <= k < i ==> (#[trigger] cpu_usage@[k])@ == self.cpu_usage@[k]@
                        && cpu_usage@[k].limit() == self.cpu_usage@[k].limit(),
            decreases self.cpu_usage@.len() - i,
        {
            cpu_usage.push(self.cpu_usage[i].copy());
            i = i + 1;
        }
        let r = Snapshot {
            cpu_usage,
            ram_usage: self.ram_usage.duplicate(),
            disk_usage: duplicate_disks(&self.disk_usage),
            process_list: duplicate_all(self.process_list.as_slice()),
            extra_infos: duplicate_lines(&self.extra_infos),
        };
        assert(r@.cpu_usage =~= self@.cpu_usage);
        r
    }
}

} // verus!
