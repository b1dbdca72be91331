use dashboard::tasks::{
    compare_keys, duplicate_all, sort_processes, stands_before, ItemSort, ProcessInfo,
    TasksListChart,
};
use dashboard::text::text_le;

fn process(pid: usize, nice: &str, status: &str, user: &str, cpu: u32, memory: u32, cmd: &str) -> ProcessInfo {
    ProcessInfo {
        pid,
        nice: nice.to_string(),
        status: status.to_string(),
        user: user.to_string(),
        cpu,
        memory,
        cmd: cmd.to_string(),
    }
}

fn sample() -> Vec<ProcessInfo> {
    vec![
        process(30, "0", "S", "root", 1_200, 300, "systemd"),
        process(10, "-5", "R", "alice", 54_300, 100, "cargo build"),
        process(20, "10", "S", "bob", 16_800, 200, "bash"),
    ]
}

fn pids(list: &[ProcessInfo]) -> Vec<usize> {
    list.iter().map(|p| p.pid).collect()
}

fn cpus(list: &[ProcessInfo]) -> Vec<u32> {
    list.iter().map(|p| p.cpu).collect()
}

#[test]
fn item_sort_by_column_number() {
    assert_eq!(ItemSort::by(0), ItemSort::Pid);
    assert_eq!(ItemSort::by(1), ItemSort::Nice);
    assert_eq!(ItemSort::by(2), ItemSort::Status);
    assert_eq!(ItemSort::by(3), ItemSort::User);
    assert_eq!(ItemSort::by(4), ItemSort::Cpu);
    assert_eq!(ItemSort::by(5), ItemSort::Memory);
    assert_eq!(ItemSort::by(6), ItemSort::Cmd);
    assert_eq!(ItemSort::by(7), ItemSort::Nice);
    assert_eq!(ItemSort::by(usize::MAX), ItemSort::Nice);
}

#[test]
fn columns_and_their_own_direction() {
    assert!(!ItemSort::Pid.descends());
    assert!(!ItemSort::Nice.descends());
    assert!(ItemSort::Status.descends());
    assert!(!ItemSort::User.descends());
    assert!(ItemSort::Cpu.descends());
    assert!(ItemSort::Memory.descends());
    assert!(!ItemSort::Cmd.descends());
}

#[test]
fn new_table_orders_by_memory_descending() {
    let table = TasksListChart::new();
    assert!(table.process_info.is_empty());
    assert_eq!(table.separators, vec![83_333, 166_666, 250_000, 333_333, 416_666, 500_000]);
    assert_eq!(table.item_sort, ItemSort::Memory);
    assert!(table.rev);
}

#[test]
fn set_data_copies_and_orders() {
    let mut table = TasksListChart::new();
    let list = sample();
    table.set_data(&list);
    assert_eq!(pids(&table.process_info), vec![30, 20, 10]);
    assert_eq!(pids(&list), vec![30, 10, 20]);
    assert_eq!(table.process_info[0].cmd, "systemd");
    assert_eq!(table.process_info[2].user, "alice");
}

#[test]
fn sorting_by_cpu_descends_then_ascends() {
    let mut table = TasksListChart::new();
    table.set_data(&sample());
    table.sort_by(4);
    assert_eq!(table.item_sort, ItemSort::Cpu);
    assert!(table.rev);
    assert_eq!(cpus(&table.process_info), vec![54_300, 16_800, 1_200]);
    table.sort_by(4);
    assert_eq!(table.item_sort, ItemSort::Cpu);
    assert!(!table.rev);
    assert_eq!(cpus(&table.process_info), vec![1_200, 16_800, 54_300]);
    table.sort_by(4);
    assert!(table.rev);
    assert_eq!(cpus(&table.process_info), vec![54_300, 16_800, 1_200]);
}

#[test]
fn sorting_by_another_column_takes_its_own_direction() {
    let mut table = TasksListChart::new();
    table.set_data(&sample());
    table.sort_by(0);
    assert_eq!(table.item_sort, ItemSort::Pid);
    assert!(!table.rev);
    assert_eq!(pids(&table.process_info), vec![10, 20, 30]);
    table.sort_by(2);
    assert_eq!(table.item_sort, ItemSort::Status);
    assert!(table.rev);
    assert_eq!(pids(&table.process_info), vec![20, 30, 10]);
    table.sort_by(3);
    assert!(!table.rev);
    assert_eq!(pids(&table.process_info), vec![10, 20, 30]);
    table.sort_by(6);
    assert!(!table.rev);
    assert_eq!(pids(&table.process_info), vec![20, 10, 30]);
    table.sort_by(5);
    assert!(table.rev);
    assert_eq!(pids(&table.process_info), vec![30, 20, 10]);
    table.sort_by(9);
    assert_eq!(table.item_sort, ItemSort::Nice);
    assert!(!table.rev);
    assert_eq!(pids(&table.process_info), vec![10, 30, 20]);
}

#[test]
fn nice_values_are_ordered_as_text() {
    let list = vec![
        process(1, "2", "S", "u", 0, 0, "a"),
        process(2, "10", "S", "u", 0, 0, "a"),
        process(3, "-5", "S", "u", 0, 0, "a"),
        process(4, "0", "S", "u", 0, 0, "a"),
    ];
    let sorted = sort_processes(list, ItemSort::Nice, false);
    assert_eq!(pids(&sorted), vec![3, 4, 2, 1]);
}

#[test]
fn ties_keep_their_order_in_both_directions() {
    let list = vec![
        process(1, "0", "S", "u", 500, 0, "a"),
        process(2, "0", "S", "u", 100, 0, "a"),
        process(3, "0", "S", "u", 500, 0, "a"),
        process(4, "0", "S", "u", 100, 0, "a"),
        process(5, "0", "S", "u", 500, 0, "a"),
    ];
    let up = sort_processes(duplicate_all(&list), ItemSort::Cpu, false);
    assert_eq!(pids(&up), vec![2, 4, 1, 3, 5]);
    let down = sort_processes(duplicate_all(&list), ItemSort::Cpu, true);
    assert_eq!(pids(&down), vec![1, 3, 5, 2, 4]);
    let same = sort_processes(list, ItemSort::User, true);
    assert_eq!(pids(&same), vec![1, 2, 3, 4, 5]);
}

#[test]
fn sort_of_nothing_and_of_one() {
    assert!(sort_processes(Vec::new(), ItemSort::Pid, false).is_empty());
    let one = sort_processes(vec![process(9, "0", "S", "u", 1, 1, "x")], ItemSort::Cmd, true);
    assert_eq!(pids(&one), vec![9]);
}

#[test]
fn sort_keeps_every_record() {
    let mut list = Vec::new();
    for i in 0..40usize {
        list.push(process(i, "0", "S", "u", ((i * 7) % 11) as u32, ((i * 3) % 5) as u32, "x"));
    }
    let sorted = sort_processes(list, ItemSort::Cpu, false);
    assert_eq!(sorted.len(), 40);
    let mut seen = pids(&sorted);
    seen.sort();
    assert_eq!(seen, (0..40).collect::<Vec<usize>>());
    for pair in sorted.windows(2) {
        assert!(pair[0].cpu <= pair[1].cpu);
        if pair[0].cpu == pair[1].cpu {
            assert!(pair[0].pid < pair[1].pid);
        }
    }
}

#[test]
fn sort_leaves_separators_alone() {
    let mut table = TasksListChart::new();
    table.separators = vec![80_000, 170_000, 250_000, 370_000, 440_000, 510_000];
    table.set_data(&sample());
    table.sort();
    table.sort_by(1);
    assert_eq!(table.separators, vec![80_000, 170_000, 250_000, 370_000, 440_000, 510_000]);
}

#[test]
fn text_order_is_byte_by_byte() {
    assert!(text_le("", ""));
    assert!(text_le("", "a"));
    assert!(!text_le("a", ""));
    assert!(text_le("abc", "abc"));
    assert!(text_le("ab", "abc"));
    assert!(!text_le("abc", "ab"));
    assert!(text_le("abc", "abd"));
    assert!(!text_le("abd", "abc"));
    assert!(text_le("Z", "a"));
    assert!(text_le("10", "2"));
    assert!(text_le("z", "é"));
    assert!(!text_le("é", "z"));
}

#[test]
fn keys_compare_by_their_column() {
    let a = process(1, "5", "R", "bob", 200, 900, "x");
    let b = process(2, "10", "S", "alice", 100, 900, "y");
    assert!(compare_keys(ItemSort::Pid, &a, &b));
    assert!(!compare_keys(ItemSort::Pid, &b, &a));
    assert!(!compare_keys(ItemSort::Nice, &a, &b));
    assert!(compare_keys(ItemSort::Status, &a, &b));
    assert!(!compare_keys(ItemSort::User, &a, &b));
    assert!(!compare_keys(ItemSort::Cpu, &a, &b));
    assert!(compare_keys(ItemSort::Memory, &a, &b));
    assert!(compare_keys(ItemSort::Memory, &b, &a));
    assert!(compare_keys(ItemSort::Cmd, &a, &b));
    assert!(stands_before(ItemSort::Pid, true, &b, &a));
    assert!(!stands_before(ItemSort::Pid, true, &a, &b));
    assert!(stands_before(ItemSort::Pid, false, &a, &b));
}

#[test]
fn duplicate_is_equal_field_by_field() {
    let a = process(1, "5", "R", "bob", 200, 900, "x y z");
    let b = a.duplicate();
    assert_eq!(b.pid, 1);
    assert_eq!(b.nice, "5");
    assert_eq!(b.status, "R");
    assert_eq!(b.user, "bob");
    assert_eq!(b.cpu, 200);
    assert_eq!(b.memory, 900);
    assert_eq!(b.cmd, "x y z");
}
