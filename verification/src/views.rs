//! What the consumer derives from a snapshot: one history per core, one
//! share per partition, the memory bars and the process table.

use crate::series::RollingSeries;
use crate::tasks::{stable_sorted, ItemSort, ProcessInfo, TasksListChart};
use crate::telemetry::{
    ChangedCategories, DiskSample, MemorySample, Snapshot, FULL, MAX_POINTS,
};
use vstd::prelude::*;

verus! {

/// The first `limit` values of `values`, or all of them if they are fewer.
pub open spec fn cut<T>(values: Seq<T>, limit: nat) -> Seq<T> {
    if values.len() > limit {
        values.take(limit as int)
    } else {
        values
    }
}

/// The recent usage of one core, ready to be plotted.
pub struct CpuUsageChart {
    /// The values to plot, newest first.
    pub data_points: RollingSeries<u32>,
}

impl CpuUsageChart {
    /// A chart without values that will plot up to `max_points` of them.
    pub fn new(max_points: usize) -> (r: Self)
        ensures
            r.data_points@ == Seq::<u32>::empty(),
            r.data_points.limit() == max_points,
    {
        CpuUsageChart { data_points: RollingSeries::new(max_points) }
    }

    /// Replaces the values by the first of `value`, as many as the chart
    /// plots.
    pub fn set_data(&mut self, value: &Vec<u32>)
        ensures
            final(self).data_points@ == cut(value@, old(self).data_points.limit()),
            final(self).data_points.limit() == old(self).data_points.limit(),
    {
        self.data_points = RollingSeries::from_values(value, self.data_points.capacity());
    }
}

/// The share of one partition that is in use, ready to be plotted.
#[derive(Debug)]
pub struct DiskUsageChart {
    /// The share in use and the share that is free.
    pub data_points: (u32, i64),
    /// The label of the file system.
    pub tech: String,
    /// The label of the capacity.
    pub capacity: String,
}

impl DiskUsageChart {
    /// A chart of a partition of which nothing is known yet: all free, no
    /// labels.
    pub fn new() -> (r: Self)
        ensures
            r.data_points == (0u32, FULL as i64),
            r.tech@ == Seq::<char>::empty(),
            r.capacity@ == Seq::<char>::empty(),
    {
        DiskUsageChart { data_points: (0, FULL as i64), tech: String::new(), capacity: String::new() }
    }

    /// Replaces what the chart shows.
    pub fn set_data(&mut self, value: (u32, i64), tech: String, cap: String)
        ensures
            *final(self) == (DiskUsageChart { data_points: value, tech, capacity: cap }),
    {
        self.data_points = value;
        self.tech = tech;
        self.capacity = cap;
    }

    /// What the chart of a partition shows: the share in use, the rest of
    /// the whole as the free share, and the two labels.
    pub open spec fn shows(&self, sample: DiskSample) -> bool {
        *self == (DiskUsageChart {
            data_points: (sample.used, (FULL - sample.used) as i64),
            tech: sample.filesystem,
            capacity: sample.capacity,
        })
    }
}

/// Memory and swap in use, ready to be plotted.
#[derive(Debug)]
pub struct MemoryUsageChart {
    /// The shares of memory that are used and buffered.
    pub memory_points: (u32, u32),
    /// The shares of swap that are used and buffered.
    pub swap_points: (u32, u32),
    /// The label of the memory technology.
    pub tech: String,
    /// The label of the memory capacity.
    pub capacity: String,
    /// The label of the swap capacity.
    pub swap_capacity: String,
}

impl MemoryUsageChart {
    /// A chart of memory of which nothing is known yet.
    pub fn new() -> (r: Self)
        ensures
            r.memory_points == (0u32, FULL),
            r.swap_points == (0u32, FULL),
            r.tech@ == Seq::<char>::empty(),
            r.capacity@ == Seq::<char>::empty(),
            r.swap_capacity@ == Seq::<char>::empty(),
    {
        MemoryUsageChart {
            memory_points: (0, FULL),
            swap_points: (0, FULL),
            tech: String::new(),
            capacity: String::new(),
            swap_capacity: String::new(),
        }
    }

    /// Replaces what the chart shows.
    pub fn set_data(
        &mut self,
        memory_value: (u32, u32),
        swap_value: (u32, u32),
        tech: String,
        cap: String,
        swap_cap: String,
    )
        ensures
            *final(self) == (MemoryUsageChart {
                memory_points: memory_value,
                swap_points: swap_value,
                tech,
                capacity: cap,
                swap_capacity: swap_cap,
            }),
    {
        self.memory_points = memory_value;
        self.swap_points = swap_value;
        self.tech = tech;
        self.capacity = cap;
        self.swap_capacity = swap_cap;
    }

    /// What the chart of a memory sample shows.
    pub open spec fn shows(&self, sample: MemorySample) -> bool {
        *self == (MemoryUsageChart {
            memory_points: (sample.ram_used, sample.ram_buffered),
            swap_points: (sample.swap_used, sample.swap_buffered),
            tech: sample.technology,
            capacity: sample.capacity,
            swap_capacity: sample.swap_capacity,
        })
    }
}

/// Whether the core charts `after` follow from the charts `before` and the
/// histories `usage`: there is one chart for every core and no other; the
/// chart of a core plots the core's history, cut to what the chart plots,
/// which is what the chart in its place plotted before, and `MAX_POINTS`
/// for a new chart.
pub open spec fn cpus_follow(
    before: Seq<CpuUsageChart>,
    after: Seq<CpuUsageChart>,
    usage: Seq<Seq<u32>>,
) -> bool {
    &&& after.len() == usage.len()
    &&& forall|i: int|
        0 <= i < after.len() ==> (#[trigger] after[i]).data_points.limit() == (if i < before.len() {
            before[i].data_points.limit()
        } else {
            MAX_POINTS as nat
        })
    &&& forall|i: int|
        0 <= i < after.len() ==> (#[trigger] after[i]).data_points@ == cut(
            usage[i],
            after[i].data_points.limit(),
        )
}

/// Whether the partition charts `after` follow from the partitions `disks`:
/// there is one chart for every partition and no other, and the chart of a
/// partition shows it.
pub open spec fn disks_follow(after: Seq<DiskUsageChart>, disks: Seq<DiskSample>) -> bool {
    &&& after.len() == disks.len()
    &&& forall|i: int| 0 <= i < after.len() ==> (#[trigger] after[i]).shows(disks[i])
}

/// Whether the process table `after` follows from the table `before` and
/// the processes `list`: separators, sort key and direction are those of
/// the table that was there, or of a new table; the processes are those of
/// the list, in the order of the table.
pub open spec fn tasks_follow(
    before: Option<TasksListChart>,
    after: Option<TasksListChart>,
    list: Seq<ProcessInfo>,
) -> bool {
    &&& after is Some
    &&& after->Some_0.separators@ == (match before {
        Some(table) => table.separators@,
        None => TasksListChart::initial_separators(),
    })
    &&& after->Some_0.item_sort == (match before {
        Some(table) => table.item_sort,
        None => ItemSort::Memory,
    })
    &&& after->Some_0.rev == (match before {
        Some(table) => table.rev,
        None => true,
    })
    &&& stable_sorted(
        list,
        after->Some_0.process_info@,
        after->Some_0.item_sort,
        after->Some_0.rev,
    )
}

/// The consumer's copy of the telemetry and the views derived from it.
pub struct LocalData {
    /// The snapshot taken at the last poll that found something.
    pub current_data_copy: Snapshot,
    /// One chart per core.
    pub cpu_charts: Vec<CpuUsageChart>,
    /// One chart per partition.
    pub disk_charts: Vec<DiskUsageChart>,
    /// The memory chart, once memory was sampled.
    pub memory_chart: Option<MemoryUsageChart>,
    /// The process table, once processes were sampled.
    pub tasks_chart: Option<TasksListChart>,
}

impl LocalData {
    /// The views before the first poll: an empty snapshot and no charts.
    pub fn new() -> (r: Self)
        ensures
            r.current_data_copy@.cpu_usage.len() == 0,
            r.current_data_copy@.ram_usage.is_empty(),
            r.current_data_copy@.disk_usage.len() == 0,
            r.current_data_copy@.process_list.len() == 0,
            r.current_data_copy@.extra_infos.len() == 0,
            r.cpu_charts@.len() == 0,
            r.disk_charts@.len() == 0,
            r.memory_chart is None,
            r.tasks_chart is None,
    {
        LocalData {
            current_data_copy: Snapshot::empty(),
            cpu_charts: Vec::new(),
            disk_charts: Vec::new(),
            memory_chart: None,
            tasks_chart: None,
        }
    }

    /// Brings the core charts up to the snapshot: a chart for every core,
    /// none for a core that the snapshot does not have.
    pub fn update_cpus(&mut self)
        ensures
            cpus_follow(
                old(self).cpu_charts@,
                final(self).cpu_charts@,
                old(self).current_data_copy@.cpu_usage,
            ),
            final(self).current_data_copy == old(self).current_data_copy,
            final(self).disk_charts == old(self).disk_charts,
            final(self).memory_chart == old(self).memory_chart,
            final(self).tasks_chart == old(self).tasks_chart,
    {
        let ghost before = self.cpu_charts@;
        let cores = self.current_data_copy.cpu_usage.len();
        if self.cpu_charts.len() > cores {
            self.cpu_charts.truncate(cores);
        }
        while cores > self.cpu_charts.len()
            invariant
                self.current_data_copy == old(self).current_data_copy,
                self.disk_charts == old(self).disk_charts,
                self.memory_chart == old(self).memory_chart,
                self.tasks_chart == old(self).tasks_chart,
                cores == self.current_data_copy.cpu_usage@.len(),
                before == old(self).cpu_charts@,
                self.cpu_charts@.len() <= cores,
                self.cpu_charts@.len() >= before.len() || self.cpu_charts@.len() == cores,
                forall|i: int|
                    0 <= i < self.cpu_charts@.len() ==> if i < before.len() {
                        (#[trigger] self.cpu_charts@[i]) == before[i]
                    } else {
                        self.cpu_charts@[i].data_points.limit() == MAX_POINTS
                    },
            decreases cores - self.cpu_charts@.len(),
        {
            self.cpu_charts.push(CpuUsageChart::new(MAX_POINTS));
        }
        let mut i: usize = 0;
        while i < cores
            invariant
                self.current_data_copy == old(self).current_data_copy,
                self.disk_charts == old(self).disk_charts,
                self.memory_chart == old(self).memory_chart,
                self.tasks_chart == old(self).tasks_chart,
                cores == self.current_data_copy.cpu_usage@.len(),
                before == old(self).cpu_charts@,
                i <= cores,
                self.cpu_charts@.len() == cores,
                forall|k: int|
                    0 <= k < self.cpu_charts@.len() ==> (#[trigger] self.cpu_charts@[k]).data_points.limit()
                        == (if k < before.len() {
                        before[k].data_points.limit()
                    } else {
                        MAX_POINTS as nat
                    }),
                forall|k: int|
                    0 <= k < i ==> (#[trigger] self.cpu_charts@[k]).data_points@ == cut(
                        self.current_data_copy@.cpu_usage[k],
                        self.cpu_charts@[k].data_points.limit(),
                    ),
            decreases cores - i,
        {
            let values = self.current_data_copy.cpu_usage[i].to_vec();
            self.cpu_charts[i].set_data(&values);
            i = i + 1;
        }
    }

    /// Brings the partition charts up to the snapshot: a chart for every
    /// partition, none for a partition that the snapshot does not have.
    pub fn update_disks(&mut self)
        ensures
            disks_follow(final(self).disk_charts@, old(self).current_data_copy@.disk_usage),
            final(self).current_data_copy == old(self).current_data_copy,
            final(self).cpu_charts == old(self).cpu_charts,
            final(self).memory_chart == old(self).memory_chart,
            final(self).tasks_chart == old(self).tasks_chart,
    {
        let count = self.current_data_copy.disk_usage.len();
        if self.disk_charts.len() > count {
            self.disk_charts.truncate(count);
        }
        while count > self.disk_charts.len()
            invariant
                self.current_data_copy == old(self).current_data_copy,
                self.cpu_charts == old(self).cpu_charts,
                self.memory_chart == old(self).memory_chart,
                self.tasks_chart == old(self).tasks_chart,
                count == self.current_data_copy.disk_usage@.len(),
                self.disk_charts@.len() <= count,
            decreases count - self.disk_charts@.len(),
        {
            self.disk_charts.push(DiskUsageChart::new());
        }
        let mut i: usize = 0;
        while i < count
            invariant
                self.current_data_copy == old(self).current_data_copy,
                self.cpu_charts == old(self).cpu_charts,
                self.memory_chart == old(self).memory_chart,
                self.tasks_chart == old(self).tasks_chart,
                count == self.current_data_copy.disk_usage@.len(),
                i <= count,
                self.disk_charts@.len() == count,
                forall|k: int|
                    0 <= k < i ==> (#[trigger] self.disk_charts@[k]).shows(
                        self.current_data_copy.disk_usage@[k],
                    ),
            decreases count - i,
        {
            let used = self.current_data_copy.disk_usage[i].used;
            let tech = self.current_data_copy.disk_usage[i].filesystem.clone();
            let cap = self.current_data_copy.disk_usage[i].capacity.clone();
            self.disk_charts[i].set_data((used, FULL as i64 - used as i64), tech, cap);
            i = i + 1;
        }
    }

    /// Brings the memory chart up to the snapshot.
    pub fn update_memory(&mut self)
        ensures
            final(self).memory_chart is Some,
            final(self).memory_chart->Some_0.shows(old(self).current_data_copy.ram_usage),
            final(self).current_data_copy == old(self).current_data_copy,
            final(self).cpu_charts == old(self).cpu_charts,
            final(self).disk_charts == old(self).disk_charts,
            final(self).tasks_chart == old(self).tasks_chart,
    {
        let sample = &self.current_data_copy.ram_usage;
        let mut chart = MemoryUsageChart::new();
        chart.set_data(
            (sample.ram_used, sample.ram_buffered),
            (sample.swap_used, sample.swap_buffered),
            sample.technology.clone(),
            sample.capacity.clone(),
            sample.swap_capacity.clone(),
        );
        self.memory_chart = Some(chart);
    }

    /// Brings the process table up to the snapshot.
    pub fn update_tasks(&mut self)
        ensures
            tasks_follow(
                old(self).tasks_chart,
                final(self).tasks_chart,
                old(self).current_data_copy@.process_list,
            ),
            final(self).current_data_copy == old(self).current_data_copy,
            final(self).cpu_charts == old(self).cpu_charts,
            final(self).disk_charts == old(self).disk_charts,
            final(self).memory_chart == old(self).memory_chart,
    {
        let mut slot: Option<TasksListChart> = None;
        std::mem::swap(&mut self.tasks_chart, &mut slot);
        let mut table = match slot {
            Some(table) => table,
            None => TasksListChart::new(),
        };
        table.set_data(self.current_data_copy.process_list.as_slice());
        self.tasks_chart = Some(table);
    }

    /// Takes in what a poll handed over: the snapshot becomes the copy, and
    /// the view of every category that is marked is brought up to it, once.
    /// The views of the other categories stay.
    pub fn absorb(&mut self, snapshot: Snapshot, changed: ChangedCategories)
        ensures
            final(self).current_data_copy == snapshot,
            if changed.cpu {
                cpus_follow(old(self).cpu_charts@, final(self).cpu_charts@, snapshot@.cpu_usage)
            } else {
                final(self).cpu_charts == old(self).cpu_charts
            },
            if changed.disks {
                disks_follow(final(self).disk_charts@, snapshot@.disk_usage)
            } else {
                final(self).disk_charts == old(self).disk_charts
            },
            if changed.memory {
                final(self).memory_chart is Some && final(self).memory_chart->Some_0.shows(
                    snapshot.ram_usage,
                )
            } else {
                final(self).memory_chart == old(self).memory_chart
            },
            if changed.processes {
                tasks_follow(old(self).tasks_chart, final(self).tasks_chart, snapshot@.process_list)
            } else {
                final(self).tasks_chart == old(self).tasks_chart
            },
    {
        self.current_data_copy = snapshot;
        if changed.cpu {
            self.update_cpus();
        }
        if changed.disks {
            self.update_disks();
        }
        if changed.memory {
            self.update_memory();
        }
        if changed.processes {
            self.update_tasks();
        }
    }
}

} // verus!
