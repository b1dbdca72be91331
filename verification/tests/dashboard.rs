use dashboard::dashboard::Dashboard;
use dashboard::layout::{Axis, Direction};
use dashboard::message::{DragEvent, Message};
use dashboard::panel::{PaneType, Panel};
use dashboard::store::SnapshotStore;
use dashboard::table::{Interaction, Pending, Point, PointerEvent, PointerState, Status};
use dashboard::tasks::{ItemSort, ProcessInfo};
use dashboard::telemetry::{
    ChangedCategories, DiskSample, MemorySample, Record, Snapshot, FULL, MAX_POINTS,
};
use dashboard::views::{CpuUsageChart, DiskUsageChart, LocalData, MemoryUsageChart};
use iced_native::widget::pane_grid;

fn root_of(dashboard: &Dashboard) -> pane_grid::Pane {
    match dashboard.workspace().grid().layout() {
        pane_grid::Node::Pane(pane) => *pane,
        pane_grid::Node::Split { .. } => panic!("the workspace has more than one pane"),
    }
}

fn process(pid: usize, cpu: u32, memory: u32) -> ProcessInfo {
    ProcessInfo {
        pid,
        nice: String::from("0"),
        status: String::from("S"),
        user: String::from("root"),
        cpu,
        memory,
        cmd: String::from("x"),
    }
}

fn memory(used: u32) -> MemorySample {
    MemorySample {
        ram_used: used,
        ram_buffered: 5_000,
        swap_used: 1_000,
        swap_buffered: 0,
        technology: String::from("DDR4"),
        capacity: String::from("15.53G"),
        swap_capacity: String::from("2.00G"),
    }
}

fn disk(used: u32, filesystem: &str, capacity: &str) -> DiskSample {
    DiskSample { used, filesystem: filesystem.to_string(), capacity: capacity.to_string() }
}

fn pids(list: &[ProcessInfo]) -> Vec<usize> {
    list.iter().map(|p| p.pid).collect()
}

#[test]
fn new_dashboard() {
    let dashboard = Dashboard::new();
    assert_eq!(dashboard.last_tick(), 0);
    assert_eq!(dashboard.workspace().len(), 1);
    assert_eq!(dashboard.workspace().focus(), None);
    assert_eq!(dashboard.workspace().maximized(), None);
    assert_eq!(dashboard.workspace().tasks_pane(), None);
    assert_eq!(dashboard.workspace().panes_created(), 1);
    assert!(!dashboard.workspace().show_title_bar());
    assert_eq!(
        dashboard.workspace().get(&root_of(&dashboard)),
        Some(Panel { id: 0, is_pinned: false, pane_type: PaneType::Selection })
    );
    assert!(dashboard.local_data().current_data_copy.cpu_usage.is_empty());
    assert!(dashboard.local_data().current_data_copy.extra_infos.is_empty());
    assert!(dashboard.local_data().cpu_charts.is_empty());
    assert!(dashboard.local_data().disk_charts.is_empty());
    assert!(dashboard.local_data().memory_chart.is_none());
    assert!(dashboard.local_data().tasks_chart.is_none());
}

#[test]
fn requests_reach_the_workspace() {
    let mut dashboard = Dashboard::new();
    let root = root_of(&dashboard);
    dashboard.update(Message::SplitFocused(Axis::Vertical));
    assert_eq!(dashboard.workspace().len(), 1);
    dashboard.update(Message::Clicked(root));
    assert_eq!(dashboard.workspace().focus(), Some(root));
    dashboard.update(Message::SplitFocused(Axis::Vertical));
    assert_eq!(dashboard.workspace().len(), 2);
    let fresh = dashboard.workspace().focus().expect("the fresh pane has focus");
    assert_ne!(fresh, root);
    dashboard.update(Message::FocusAdjacent(Direction::Left));
    assert_eq!(dashboard.workspace().focus(), Some(root));
    dashboard.update(Message::FocusAdjacent(Direction::Up));
    assert_eq!(dashboard.workspace().focus(), Some(root));
    dashboard.update(Message::Maximize(fresh));
    assert_eq!(dashboard.workspace().maximized(), Some(fresh));
    dashboard.update(Message::Restore);
    assert_eq!(dashboard.workspace().maximized(), None);
    dashboard.update(Message::TogglePin(fresh));
    dashboard.update(Message::Close(fresh));
    assert_eq!(dashboard.workspace().len(), 2);
    dashboard.update(Message::TogglePin(fresh));
    dashboard.update(Message::ChangeType(fresh, PaneType::Tasks));
    assert_eq!(dashboard.workspace().tasks_pane(), Some(fresh));
    dashboard.update(Message::ChangeTypeFocused(PaneType::Tasks));
    assert_eq!(dashboard.workspace().get(&root).map(|p| p.pane_type), Some(PaneType::Selection));
    dashboard.update(Message::ChangeTypeFocused(PaneType::Cpu));
    assert_eq!(dashboard.workspace().get(&root).map(|p| p.pane_type), Some(PaneType::Cpu));
    dashboard.update(Message::Dragged(DragEvent::Picked { pane: root }));
    dashboard.update(Message::Dragged(DragEvent::Canceled { pane: root }));
    dashboard.update(Message::Dragged(DragEvent::Dropped { pane: root, target: fresh }));
    match dashboard.workspace().grid().layout() {
        pane_grid::Node::Split { a, b, id, .. } => {
            assert!(matches!(**a, pane_grid::Node::Pane(p) if p == fresh));
            assert!(matches!(**b, pane_grid::Node::Pane(p) if p == root));
            dashboard.update(Message::Resized(pane_grid::ResizeEvent { split: *id, ratio: 0.75 }));
        }
        pane_grid::Node::Pane(_) => panic!("there are two panes"),
    }
    match dashboard.workspace().grid().layout() {
        pane_grid::Node::Split { ratio, .. } => assert_eq!(*ratio, 0.75),
        pane_grid::Node::Pane(_) => panic!("there are two panes"),
    }
    dashboard.update(Message::ToggleTitleBar);
    assert!(dashboard.workspace().show_title_bar());
    dashboard.update(Message::Close(fresh));
    assert_eq!(dashboard.workspace().len(), 1);
    assert_eq!(dashboard.workspace().focus(), Some(root));
    dashboard.update(Message::CloseFocused);
    assert_eq!(dashboard.workspace().len(), 1);
    dashboard.update(Message::UnFocus);
    assert_eq!(dashboard.workspace().focus(), None);
    dashboard.update(Message::CloseFocused);
    assert_eq!(dashboard.workspace().len(), 1);
}

#[test]
fn table_requests_without_a_table_do_nothing() {
    let mut dashboard = Dashboard::new();
    dashboard.update(Message::SortTasks(4));
    dashboard.update(Message::DraggedTask(2, 300_000));
    assert!(dashboard.local_data().tasks_chart.is_none());
    assert_eq!(dashboard.workspace().len(), 1);
}

#[test]
fn table_requests_reach_the_table() {
    let mut dashboard = Dashboard::new();
    let mut store = SnapshotStore::new();
    store.write(Record::Processes(vec![process(1, 1_200, 3), process(2, 54_300, 1), process(3, 16_800, 2)]));
    let changed = dashboard.tick(&mut store);
    assert!(changed.processes);
    dashboard.update(Message::SortTasks(4));
    dashboard.update(Message::DraggedTask(2, 300_000));
    dashboard.update(Message::DraggedTask(3, 300_000));
    dashboard.update(Message::DraggedTask(7, 300_000));
    let table = dashboard.local_data().tasks_chart.as_ref().expect("processes were sampled");
    assert_eq!(table.item_sort, ItemSort::Cpu);
    assert!(table.rev);
    assert_eq!(pids(&table.process_info), vec![2, 3, 1]);
    assert_eq!(table.separators, vec![83_333, 166_666, 300_000, 333_333, 416_666, 500_000]);
}

#[test]
fn a_tick_without_a_write_changes_nothing() {
    let mut dashboard = Dashboard::new();
    let mut store = SnapshotStore::new();
    assert!(!dashboard.is_behind(store.revision()));
    let changed = dashboard.tick(&mut store);
    assert_eq!(changed, ChangedCategories::none());
    assert_eq!(dashboard.last_tick(), 0);
    assert!(dashboard.local_data().memory_chart.is_none());
}

#[test]
fn a_tick_brings_the_marked_views_up_to_the_snapshot() {
    let mut dashboard = Dashboard::new();
    let mut store = SnapshotStore::new();
    store.write(Record::Memory(memory(60_000)));
    store.write(Record::Cpu(vec![22_000, 33_300]));
    store.write(Record::Cpu(vec![23_000, 34_300]));
    store.write(Record::Disks(vec![disk(94_100, "ext4", "120G")]));
    assert!(dashboard.is_behind(store.revision()));
    let changed = dashboard.tick(&mut store);
    assert_eq!(
        changed,
        ChangedCategories { cpu: true, memory: true, disks: true, processes: false, static_info: false }
    );
    assert_eq!(dashboard.last_tick(), 4);
    assert!(!dashboard.is_behind(store.revision()));
    assert_eq!(store.dirty(), ChangedCategories::none());
    let views = dashboard.local_data();
    assert_eq!(views.cpu_charts.len(), 2);
    assert_eq!(views.cpu_charts[0].data_points.to_vec(), vec![23_000, 22_000]);
    assert_eq!(views.cpu_charts[1].data_points.to_vec(), vec![34_300, 33_300]);
    assert_eq!(views.cpu_charts[0].data_points.capacity(), MAX_POINTS);
    assert_eq!(views.disk_charts.len(), 1);
    assert_eq!(views.disk_charts[0].data_points, (94_100, 5_900));
    assert_eq!(views.disk_charts[0].tech, "ext4");
    assert_eq!(views.disk_charts[0].capacity, "120G");
    let chart = views.memory_chart.as_ref().expect("memory was sampled");
    assert_eq!(chart.memory_points, (60_000, 5_000));
    assert_eq!(chart.swap_points, (1_000, 0));
    assert_eq!(chart.tech, "DDR4");
    assert_eq!(chart.capacity, "15.53G");
    assert_eq!(chart.swap_capacity, "2.00G");
    assert!(views.tasks_chart.is_none());
    assert_eq!(views.current_data_copy.ram_usage.ram_used, 60_000);
    assert_eq!(dashboard.tick(&mut store), ChangedCategories::none());
    assert_eq!(dashboard.last_tick(), 4);
}

#[test]
fn a_tick_keeps_the_order_of_the_table() {
    let mut dashboard = Dashboard::new();
    let mut store = SnapshotStore::new();
    store.write(Record::Processes(vec![process(1, 1_200, 3), process(2, 54_300, 1)]));
    dashboard.tick(&mut store);
    dashboard.update(Message::SortTasks(0));
    dashboard.update(Message::DraggedTask(0, 50_000));
    store.write(Record::Processes(vec![process(9, 0, 0), process(4, 0, 9), process(7, 5, 5)]));
    dashboard.tick(&mut store);
    let table = dashboard.local_data().tasks_chart.as_ref().expect("processes were sampled");
    assert_eq!(table.item_sort, ItemSort::Pid);
    assert!(!table.rev);
    assert_eq!(pids(&table.process_info), vec![4, 7, 9]);
    assert_eq!(table.separators[0], 50_000);
}

#[test]
fn static_information_only_reaches_the_copy() {
    let mut dashboard = Dashboard::new();
    let mut store = SnapshotStore::new();
    store.write(Record::StaticInfo(vec![String::from("Linux host 6.1"), String::from("\n")]));
    let changed = dashboard.tick(&mut store);
    assert!(changed.static_info);
    assert_eq!(
        dashboard.local_data().current_data_copy.extra_infos,
        vec![String::from("Linux host 6.1"), String::from("\n")]
    );
    assert!(dashboard.local_data().cpu_charts.is_empty());
}

#[test]
fn a_partition_that_has_gone_loses_its_chart() {
    let disks_only = ChangedCategories { cpu: false, memory: false, disks: true, processes: false, static_info: false };
    let mut views = LocalData::new();
    let mut snapshot = Snapshot::empty();
    snapshot.disk_usage = vec![disk(10_000, "ext4", "1G"), disk(20_000, "vfat", "2G")];
    views.absorb(snapshot, disks_only);
    assert_eq!(views.disk_charts.len(), 2);
    assert_eq!(views.disk_charts[1].tech, "vfat");
    let mut snapshot = Snapshot::empty();
    snapshot.disk_usage = vec![disk(30_000, "ext4", "1G")];
    views.absorb(snapshot, disks_only);
    assert_eq!(views.disk_charts.len(), 1);
    assert_eq!(views.disk_charts[0].data_points, (30_000, 70_000));
    assert_eq!(views.disk_charts[0].tech, "ext4");
    views.absorb(Snapshot::empty(), disks_only);
    assert!(views.disk_charts.is_empty());
}

#[test]
fn a_core_that_has_gone_loses_its_chart() {
    let cpu_only = ChangedCategories { cpu: true, memory: false, disks: false, processes: false, static_info: false };
    let mut store = SnapshotStore::new();
    store.write(Record::Cpu(vec![1_000, 2_000, 3_000]));
    let mut views = LocalData::new();
    views.absorb(store.read(), cpu_only);
    assert_eq!(views.cpu_charts.len(), 3);
    assert_eq!(views.cpu_charts[2].data_points.to_vec(), vec![3_000]);
    let mut other = SnapshotStore::new();
    other.write(Record::Cpu(vec![9_000]));
    views.absorb(other.read(), cpu_only);
    assert_eq!(views.cpu_charts.len(), 1);
    assert_eq!(views.cpu_charts[0].data_points.to_vec(), vec![9_000]);
    assert_eq!(views.cpu_charts[0].data_points.capacity(), MAX_POINTS);
}

#[test]
fn unmarked_categories_are_not_recomputed() {
    let mut views = LocalData::new();
    let mut snapshot = Snapshot::empty();
    snapshot.disk_usage = vec![disk(10_000, "ext4", "1G")];
    snapshot.ram_usage = memory(60_000);
    snapshot.process_list = vec![process(1, 0, 0)];
    views.absorb(snapshot, ChangedCategories::none());
    assert!(views.disk_charts.is_empty());
    assert!(views.memory_chart.is_none());
    assert!(views.tasks_chart.is_none());
    assert_eq!(views.current_data_copy.disk_usage.len(), 1);
    views.update_disks();
    views.update_memory();
    views.update_tasks();
    views.update_cpus();
    assert_eq!(views.disk_charts.len(), 1);
    assert!(views.memory_chart.is_some());
    assert_eq!(views.tasks_chart.as_ref().map(|t| t.process_info.len()), Some(1));
    assert!(views.cpu_charts.is_empty());
}

#[test]
fn a_share_beyond_the_whole_leaves_a_negative_rest() {
    let mut views = LocalData::new();
    let mut snapshot = Snapshot::empty();
    snapshot.disk_usage = vec![disk(120_000, "ext4", "1G")];
    views.absorb(snapshot, ChangedCategories { cpu: false, memory: false, disks: true, processes: false, static_info: false });
    assert_eq!(views.disk_charts[0].data_points, (120_000, -20_000));
}

#[test]
fn new_charts() {
    let cpu = CpuUsageChart::new(5);
    assert_eq!(cpu.data_points.len(), 0);
    assert_eq!(cpu.data_points.capacity(), 5);
    let disk = DiskUsageChart::new();
    assert_eq!(disk.data_points, (0, 100_000));
    assert_eq!(disk.tech, "");
    assert_eq!(disk.capacity, "");
    let memory = MemoryUsageChart::new();
    assert_eq!(memory.memory_points, (0, FULL));
    assert_eq!(memory.swap_points, (0, FULL));
    assert_eq!(memory.tech, "");
}

#[test]
fn chart_data_is_replaced() {
    let mut cpu = CpuUsageChart::new(3);
    cpu.set_data(&vec![5, 4, 3, 2, 1]);
    assert_eq!(cpu.data_points.to_vec(), vec![5, 4, 3]);
    cpu.set_data(&vec![9]);
    assert_eq!(cpu.data_points.to_vec(), vec![9]);
    assert_eq!(cpu.data_points.capacity(), 3);
    let mut disk = DiskUsageChart::new();
    disk.set_data((1, 2), String::from("ext4"), String::from("3G"));
    assert_eq!(disk.data_points, (1, 2));
    assert_eq!(disk.tech, "ext4");
    assert_eq!(disk.capacity, "3G");
    let mut memory = MemoryUsageChart::new();
    memory.set_data((1, 2), (3, 4), String::from("DDR3"), String::from("8G"), String::from("1G"));
    assert_eq!(memory.memory_points, (1, 2));
    assert_eq!(memory.swap_points, (3, 4));
    assert_eq!(memory.tech, "DDR3");
    assert_eq!(memory.capacity, "8G");
    assert_eq!(memory.swap_capacity, "1G");
}

#[test]
fn table_events_need_a_table() {
    let mut dashboard = Dashboard::new();
    let mut state = PointerState::default();
    let cursor = Some(Point { x: 200_000, y: 10_000 });
    let (status, message) = dashboard.table_event(&mut state, PointerEvent::Pressed, 810_000, cursor);
    assert_eq!(status, Status::Ignored);
    assert!(message.is_none());
    assert_eq!(state, PointerState::new());
    let mut store = SnapshotStore::new();
    store.write(Record::Processes(vec![process(1, 1_200, 3)]));
    dashboard.tick(&mut store);
    let (status, message) = dashboard.table_event(&mut state, PointerEvent::Pressed, 810_000, cursor);
    assert_eq!(status, Status::Captured);
    assert!(matches!(message, Some(Message::SortTasks(2))));
    let cursor = Some(Point { x: 205_000, y: 10_000 });
    let (_, message) = dashboard.table_event(&mut state, PointerEvent::Pressed, 810_000, cursor);
    assert!(message.is_none());
    assert_eq!(
        state,
        PointerState {
            pending: Some(Pending::One { selected: 2, diff: 0 }),
            interaction: Interaction::ResizingHorizontally
        }
    );
    let (_, message) =
        dashboard.table_event(&mut state, PointerEvent::Moved { x: 220_000 }, 810_000, cursor);
    match message {
        Some(Message::DraggedTask(2, place)) => {
            assert_eq!(place, 268_750);
            dashboard.update(Message::DraggedTask(2, place));
        }
        _ => panic!("the drag is accepted"),
    }
    let table = dashboard.local_data().tasks_chart.as_ref().expect("processes were sampled");
    assert_eq!(table.separators[2], 268_750);
    let mut broken = PointerState {
        pending: Some(Pending::One { selected: 6, diff: 0 }),
        interaction: Interaction::Idle,
    };
    let (status, message) =
        dashboard.table_event(&mut broken, PointerEvent::Moved { x: 220_000 }, 810_000, cursor);
    assert_eq!(status, Status::Ignored);
    assert!(message.is_none());
}

#[test]
fn the_consumed_view_follows_three_collectors_over_four_seconds() {
    let mut dashboard = Dashboard::new();
    let mut store = SnapshotStore::new();
    let mut memory_updates = 0;
    let mut disk_updates = 0;
    for second in 0..4 {
        assert!(store.publish(Some(Record::Cpu(vec![22_000, 33_300]))));
        if second % 2 == 0 {
            assert!(store.publish(Some(Record::Memory(memory(60_000)))));
            assert!(store.publish(Some(Record::Disks(vec![disk(94_100, "ext4", "120G")]))));
        }
        assert!(!store.publish(None));
        for _frame in 0..60 {
            let changed = dashboard.tick(&mut store);
            if changed.memory {
                memory_updates += 1;
            }
            if changed.disks {
                disk_updates += 1;
            }
        }
    }
    let views = dashboard.local_data();
    assert_eq!(views.cpu_charts.len(), 2);
    assert!(views.cpu_charts[0].data_points.len() >= 4);
    assert_eq!(views.cpu_charts[0].data_points.to_vec(), vec![22_000; 4]);
    assert_eq!(views.cpu_charts[1].data_points.to_vec(), vec![33_300; 4]);
    assert!(memory_updates >= 2);
    assert!(disk_updates >= 2);
    assert_eq!(memory_updates, 2);
    assert_eq!(disk_updates, 2);
    let chart = views.memory_chart.as_ref().expect("memory was sampled");
    assert_eq!(chart.memory_points.0, 60_000);
    assert_eq!(views.disk_charts[0].data_points, (94_100, 5_900));
    assert_eq!(views.disk_charts[0].tech, "ext4");
    assert_eq!(views.disk_charts[0].capacity, "120G");
    assert_eq!(dashboard.last_tick(), 8);
}

#[test]
fn publishing_nothing_keeps_the_store() {
    let mut store = SnapshotStore::new();
    assert!(store.publish(Some(Record::Memory(memory(10_000)))));
    assert!(!store.publish(None));
    assert_eq!(store.revision(), 1);
    assert_eq!(store.read().ram_usage.ram_used, 10_000);
    assert!(store.dirty().memory);
}

#[test]
fn split_then_close_on_a_new_dashboard() {
    for close_added in [true, false] {
        let mut dashboard = Dashboard::new();
        let a = root_of(&dashboard);
        dashboard.update(Message::Clicked(a));
        dashboard.update(Message::SplitFocused(Axis::Vertical));
        let b = dashboard.workspace().focus().expect("the added pane has focus");
        match dashboard.workspace().grid().layout() {
            pane_grid::Node::Split { ratio, .. } => assert_eq!(*ratio, 0.5),
            pane_grid::Node::Pane(_) => panic!("the pane was split"),
        }
        let (closed, kept, number) = if close_added { (b, a, 0) } else { (a, b, 1) };
        dashboard.update(Message::Close(closed));
        assert_eq!(dashboard.workspace().len(), 1);
        assert_eq!(root_of(&dashboard), kept);
        assert_eq!(
            dashboard.workspace().get(&kept),
            Some(Panel { id: number, is_pinned: false, pane_type: PaneType::Selection })
        );
        assert_eq!(dashboard.workspace().focus(), Some(kept));
    }
}

#[test]
fn a_resize_request_moves_only_a_divider_to_a_ratio_within_bounds() {
    let mut dashboard = Dashboard::new();
    let a = root_of(&dashboard);
    dashboard.update(Message::Clicked(a));
    dashboard.update(Message::SplitFocused(Axis::Vertical));
    let split = match dashboard.workspace().grid().layout() {
        pane_grid::Node::Split { id, .. } => *id,
        pane_grid::Node::Pane(_) => panic!("the pane was split"),
    };
    dashboard.update(Message::Resized(pane_grid::ResizeEvent { split, ratio: 0.3 }));
    dashboard.update(Message::Resized(pane_grid::ResizeEvent { split, ratio: 1.0 }));
    dashboard.update(Message::Resized(pane_grid::ResizeEvent { split, ratio: -0.5 }));
    match dashboard.workspace().grid().layout() {
        pane_grid::Node::Split { ratio, .. } => assert_eq!(*ratio, 0.3),
        pane_grid::Node::Pane(_) => panic!("the pane was split"),
    }
}
