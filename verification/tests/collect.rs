use dashboard::collect::{
    gigabytes_label, memory_technology, parse_cpu, parse_disk, parse_disks, parse_idle,
    parse_memory, parse_process, parse_processes, share, static_info, whole_gigabytes_label, Line,
};
use dashboard::parse::{
    chars_of, contains_text, has_prefix, number_text, parse_decimal, parse_number, split_columns,
    split_lines, split_on, take_until, trim_text,
};

const PS: &str = "    PID  NI S USER     %CPU %MEM COMMAND
      1   0 S root      0.0  0.1 /sbin/init splash
    742 -20 S root      1.2  0.0 [kworker/0:1H]

   1234   0 R alice    54.3 12.5 cargo   build --release
";

const FREE: &str = "               total        used        free      shared  buff/cache   available
Mem:      8589934592  4294967296  2147483648   300000000  1073741824  4000000000
Swap:     2147483648   536870912  1610612736
Total:   10737418240  4831838208  3758096384
";

const TOP: &str = "top - 10:00:00 up 1 day,  1:00,  1 user,  load average: 0.00, 0.01, 0.05
Tasks: 100 total,   1 running,  99 sleeping,   0 stopped,   0 zombie
%Cpu0  :  3.0 us,  1.0 sy,  0.0 ni, 95.5 id,  0.5 wa,  0.0 hi,  0.0 si,  0.0 st
%Cpu1  : 10.0 us,  5.0 sy,  0.0 ni, 80.0 id,  5.0 wa,  0.0 hi,  0.0 si,  0.0 st
MiB Mem :  15900.0 total,   8000.0 free,   4000.0 used,   3900.0 buff/cache

top - 10:00:01 up 1 day,  1:00,  1 user,  load average: 0.00, 0.01, 0.05
%Cpu0  : 50.0 us, 10.0 sy,  0.0 ni, 40.0 id,  0.0 wa,  0.0 hi,  0.0 si,  0.0 st
%Cpu1  :  0.0 us,  0.0 sy,  0.0 ni,100.0 id,  0.0 wa,  0.0 hi,  0.0 si,  0.0 st
";

const DF: &str = "Filesystem     Type     1K-blocks     Used Available Use% Mounted on
/dev/sda1      ext4     125829120 59000000  60000000  50% /
tmpfs          tmpfs      8000000        0   8000000   0% /dev/shm
/dev/sdb1      vfat        523248     6000    517248   2% /boot/efi
/dev/sdc1      ext3       1572864   100000   1400000  94.1% /data
";

fn strings(list: &[&str]) -> Vec<String> {
    list.iter().map(|s| s.to_string()).collect()
}

#[test]
fn characters_of_a_text() {
    assert_eq!(chars_of("aé "), vec!['a', 'é', ' ']);
    assert!(chars_of("").is_empty());
}

#[test]
fn columns_are_parted_by_runs_of_white_space() {
    assert_eq!(split_columns("a b c", 7), strings(&["a", "b", "c"]));
    assert_eq!(split_columns("  a \t b   c  ", 7), strings(&["a", "b", "c"]));
    assert_eq!(
        split_columns("  a  b   c d e f g  h i ", 7),
        strings(&["a", "b", "c", "d", "e", "f", "g  h i"])
    );
    assert_eq!(split_columns("a b c", 2), strings(&["a", "b c"]));
    assert_eq!(split_columns("a b c", 1), strings(&["a b c"]));
    assert_eq!(split_columns(" a b c ", 1), strings(&["a b c"]));
    assert!(split_columns("a b c", 0).is_empty());
    assert_eq!(split_columns("", 7), strings(&[""]));
    assert_eq!(split_columns("   ", 7), strings(&[""]));
    assert_eq!(split_columns("abc", 3), strings(&["abc"]));
    assert_eq!(split_columns("a b", usize::MAX), strings(&["a", "b"]));
}

#[test]
fn lines_end_at_line_feeds() {
    assert_eq!(split_lines("a\nb\r\n\nc"), strings(&["a", "b", "", "c"]));
    assert_eq!(split_lines("a\n"), strings(&["a"]));
    assert!(split_lines("").is_empty());
    assert_eq!(split_lines("\n"), strings(&[""]));
    assert_eq!(split_lines("\n\n"), strings(&["", ""]));
    assert_eq!(split_lines("x\r"), strings(&["x\r"]));
    assert_eq!(split_lines("\r\n"), strings(&[""]));
    assert_eq!(split_lines("one line"), strings(&["one line"]));
}

#[test]
fn numbers_are_digits_only() {
    assert_eq!(parse_number("0"), Some(0));
    assert_eq!(parse_number("007"), Some(7));
    assert_eq!(parse_number("123456"), Some(123_456));
    assert_eq!(parse_number("18446744073709551615"), Some(u64::MAX));
    assert_eq!(parse_number("18446744073709551616"), None);
    assert_eq!(parse_number("99999999999999999999999"), None);
    assert_eq!(parse_number(""), None);
    assert_eq!(parse_number("12a"), None);
    assert_eq!(parse_number("+5"), None);
    assert_eq!(parse_number("-5"), None);
    assert_eq!(parse_number(" 5"), None);
    assert_eq!(parse_number("٣"), None);
}

#[test]
fn decimals_are_read_in_thousandths() {
    assert_eq!(parse_decimal("54.3"), Some(54_300));
    assert_eq!(parse_decimal("1.2"), Some(1_200));
    assert_eq!(parse_decimal("16.8"), Some(16_800));
    assert_eq!(parse_decimal("0.0"), Some(0));
    assert_eq!(parse_decimal("100"), Some(100_000));
    assert_eq!(parse_decimal("1.2345"), Some(1_234));
    assert_eq!(parse_decimal("1.2399"), Some(1_239));
    assert_eq!(parse_decimal("97,3"), Some(97_300));
    assert_eq!(parse_decimal("5."), Some(5_000));
    assert_eq!(parse_decimal("0.05"), Some(50));
    assert_eq!(parse_decimal("4294967.295"), Some(u32::MAX));
    assert_eq!(parse_decimal("4294967.296"), None);
    assert_eq!(parse_decimal("99999999999999999999.0"), None);
    assert_eq!(parse_decimal(".5"), None);
    assert_eq!(parse_decimal("1.2.3"), None);
    assert_eq!(parse_decimal("1.x"), None);
    assert_eq!(parse_decimal("abc"), None);
    assert_eq!(parse_decimal(""), None);
    assert_eq!(parse_decimal("-1.0"), None);
}

#[test]
fn numbers_are_written_without_leading_zeros() {
    assert_eq!(number_text(0), "0");
    assert_eq!(number_text(7), "7");
    assert_eq!(number_text(10), "10");
    assert_eq!(number_text(1_234_567_890), "1234567890");
    assert_eq!(number_text(u64::MAX), "18446744073709551615");
}

#[test]
fn small_text_helpers() {
    assert_eq!(trim_text("  a b \t\n"), "a b");
    assert_eq!(trim_text("   "), "");
    assert_eq!(trim_text(""), "");
    assert!(contains_text("95.5 id", "id"));
    assert!(!contains_text("95.5 i d", "id"));
    assert!(contains_text("id", "id"));
    assert!(!contains_text("i", "id"));
    assert!(!contains_text("abc", ""));
    assert!(has_prefix("%Cpu0 :", "%Cpu"));
    assert!(!has_prefix(" %Cpu0 :", "%Cpu"));
    assert!(!has_prefix("%Cp", "%Cpu"));
    assert_eq!(take_until("50% /", '%'), "50");
    assert_eq!(take_until("50", '%'), "50");
    assert_eq!(take_until("%", '%'), "");
    assert_eq!(split_on("a,b,,c", ',', 7), strings(&["a", "b", "", "c"]));
    assert_eq!(split_on("a,b,,c", ',', 2), strings(&["a", "b,,c"]));
    assert_eq!(split_on("a,", ',', 7), strings(&["a", ""]));
    assert_eq!(split_on("", ',', 7), strings(&[""]));
    assert!(split_on("a", ',', 0).is_empty());
}

#[test]
fn a_process_line_has_seven_columns() {
    match parse_process("   1234   0 R alice    54.3 12.5 cargo   build --release") {
        Line::Read(info) => {
            assert_eq!(info.pid, 1234);
            assert_eq!(info.nice, "0");
            assert_eq!(info.status, "R");
            assert_eq!(info.user, "alice");
            assert_eq!(info.cpu, 54_300);
            assert_eq!(info.memory, 12_500);
            assert_eq!(info.cmd, "cargo   build --release");
        }
        _ => panic!("the line is a process line"),
    }
    assert!(matches!(parse_process("1 0 S root 0.0 0.1"), Line::Skipped));
    assert!(matches!(parse_process(""), Line::Skipped));
    assert!(matches!(parse_process("x 0 S root 0.0 0.1 init"), Line::Malformed));
    assert!(matches!(parse_process("1 0 S root n/a 0.1 init"), Line::Malformed));
    assert!(matches!(parse_process("1 0 S root 0.0 ? init"), Line::Malformed));
    assert!(matches!(
        parse_process("PID  NI S USER     %CPU %MEM COMMAND"),
        Line::Malformed
    ));
}

#[test]
fn a_process_listing_is_read_behind_its_heading() {
    let list = parse_processes(PS).expect("the listing is well-formed");
    assert_eq!(list.len(), 3);
    assert_eq!(list[0].pid, 1);
    assert_eq!(list[0].cmd, "/sbin/init splash");
    assert_eq!(list[1].pid, 742);
    assert_eq!(list[1].nice, "-20");
    assert_eq!(list[1].cpu, 1_200);
    assert_eq!(list[1].cmd, "[kworker/0:1H]");
    assert_eq!(list[2].user, "alice");
    assert_eq!(list[2].memory, 12_500);
    assert!(parse_processes("").expect("nothing is no error").is_empty());
    assert!(parse_processes("heading only\n").expect("nothing is no error").is_empty());
    assert!(parse_processes("heading\n1 0 S root zero 0.1 init\n").is_none());
}

#[test]
fn shares_are_thousandths_of_a_percent() {
    assert_eq!(share(1, 2), 50_000);
    assert_eq!(share(1, 3), 33_333);
    assert_eq!(share(0, 5), 0);
    assert_eq!(share(5, 5), 100_000);
    assert_eq!(share(5, 0), 0);
    assert_eq!(share(u64::MAX, u64::MAX), 100_000);
    assert_eq!(share(u64::MAX, 1), u32::MAX);
    assert_eq!(share(42_949_672_95, 100_000), u32::MAX);
    assert_eq!(share(42_949_672_94, 100_000), u32::MAX - 1);
}

#[test]
fn capacities_are_labelled_in_gigabytes() {
    assert_eq!(gigabytes_label(8 << 30), "8.00G");
    assert_eq!(gigabytes_label(16_673_447_936), "15.53G");
    assert_eq!(gigabytes_label(0), "0.00G");
    assert_eq!(gigabytes_label(1 << 29), "0.50G");
    assert_eq!(gigabytes_label(5_368_710), "0.01G");
    assert_eq!(gigabytes_label(5_368_709), "0.00G");
    assert_eq!(gigabytes_label(u64::MAX), "17179869184.00G");
    assert_eq!(whole_gigabytes_label(125_829_120), "120G");
    assert_eq!(whole_gigabytes_label(523_248), "0G");
    assert_eq!(whole_gigabytes_label(524_288), "1G");
    assert_eq!(whole_gigabytes_label(0), "0G");
    assert_eq!(whole_gigabytes_label(u64::MAX), "17592186044416G");
}

#[test]
fn a_memory_report_is_read() {
    let sample = parse_memory(FREE, String::from("DDR4")).expect("the report is well-formed");
    assert_eq!(sample.ram_used, 50_000);
    assert_eq!(sample.ram_buffered, 12_500);
    assert_eq!(sample.swap_used, 25_000);
    assert_eq!(sample.swap_buffered, 0);
    assert_eq!(sample.technology, "DDR4");
    assert_eq!(sample.capacity, "8.00G");
    assert_eq!(sample.swap_capacity, "2.00G");
}

#[test]
fn a_memory_report_without_swap_is_read() {
    let report = "heading\nMem: 1000 600 300 0 100 400\nSwap: 0 0 0\n";
    let sample = parse_memory(report, String::from("DDR3")).expect("the report is well-formed");
    assert_eq!(sample.ram_used, 60_000);
    assert_eq!(sample.ram_buffered, 10_000);
    assert_eq!(sample.swap_used, 0);
    assert_eq!(sample.swap_capacity, "0.00G");
}

#[test]
fn a_broken_memory_report_gives_nothing() {
    assert!(parse_memory("", String::new()).is_none());
    assert!(parse_memory("heading\nMem: 1 2 3 4 5 6\n", String::new()).is_none());
    assert!(parse_memory("heading\nMem: 1 2 3 4 5\nSwap: 1 2 3\n", String::new()).is_none());
    assert!(parse_memory("heading\nMem: 1 2 3 4 5 6\nSwap: 1 2\n", String::new()).is_none());
    assert!(parse_memory("heading\nMem: a 2 3 4 5 6\nSwap: 1 2 3\n", String::new()).is_none());
    assert!(parse_memory("heading\nMem: 1 2 3 4 x 6\nSwap: 1 2 3\n", String::new()).is_none());
    assert!(parse_memory("heading\nMem: 1 2 3 4 5 6\nSwap: 1 y 3\n", String::new()).is_none());
}

#[test]
fn the_memory_technology_is_the_first_type() {
    let report = "Memory Device\n\tError Correction Type: None\n\tType: DDR4\n\tType Detail: Synchronous\n\tType: DDR5\n";
    assert_eq!(memory_technology(report), "DDR4");
    assert_eq!(memory_technology("Type: \n"), "DDR3");
    assert_eq!(memory_technology("Type: x \n"), "x");
    assert_eq!(memory_technology(""), "DDR3");
    assert_eq!(memory_technology("nothing of use\n"), "DDR3");
}

#[test]
fn the_idle_share_is_the_first_part_that_holds_id() {
    assert_eq!(
        parse_idle("%Cpu0  :  3.0 us,  1.0 sy,  0.0 ni, 95.5 id,  0.5 wa,  0.0 hi,  0.0 si,  0.0 st"),
        Some(95_500)
    );
    assert_eq!(parse_idle("%Cpu(s): 0.0 us,100.0 id"), Some(100_000));
    assert_eq!(parse_idle("%Cpu0 : 1.0 us, 2.0 sy"), None);
    assert_eq!(parse_idle("%Cpu0 : 1.0 us, idle 7"), None);
    assert_eq!(parse_idle("a,b,c,d,e,f,g, 5.0 id"), None);
    assert_eq!(parse_idle("a,b,c,d,e,f, 5.0 id"), Some(5_000));
}

#[test]
fn a_processor_listing_is_read_from_its_first_report() {
    assert_eq!(parse_cpu(TOP), Some(vec![4_500, 20_000]));
    assert_eq!(parse_cpu("top - now\n%Cpu0 : 99.0 us, 120.0 id\n"), Some(vec![0]));
    assert_eq!(parse_cpu("top - now\nno cores here\n"), Some(vec![]));
    assert_eq!(parse_cpu("%Cpu0 : 1.0 us, 98.0 id\n"), None);
    assert_eq!(parse_cpu(""), None);
    assert_eq!(parse_cpu("top - now\n%Cpu0 : 1.0 us\n"), None);
    assert_eq!(
        parse_cpu("junk top - a\n%Cpu0 : 1.0 us, 50.0 id\ntop - b\n%Cpu0 : 1.0 us, 10.0 id\n"),
        Some(vec![50_000])
    );
    assert_eq!(parse_idle("%Cpu0 : 50.0 id"), None);
}

#[test]
fn a_partition_line_names_label_size_and_share() {
    match parse_disk("/dev/sda1      ext4     125829120 59000000  60000000  50% /") {
        Line::Read(sample) => {
            assert_eq!(sample.used, 50_000);
            assert_eq!(sample.filesystem, "ext4");
            assert_eq!(sample.capacity, "120G");
        }
        _ => panic!("the line is a partition line"),
    }
    assert!(matches!(parse_disk("tmpfs tmpfs 8000000 0 8000000 0% /dev/shm"), Line::Skipped));
    assert!(matches!(parse_disk("/dev/sda1 ext4 125829120 59000000 60000000"), Line::Malformed));
    assert!(matches!(parse_disk("/dev/sda1 ext4 many 59000000 60000000 50% /"), Line::Malformed));
    assert!(matches!(parse_disk("/dev/sda1 ext4 125829120 59000000 60000000 - /"), Line::Malformed));
}

#[test]
fn a_partition_listing_is_read_behind_its_heading() {
    let list = parse_disks(DF).expect("the listing is well-formed");
    assert_eq!(list.len(), 3);
    assert_eq!(list[0].used, 50_000);
    assert_eq!(list[0].capacity, "120G");
    assert_eq!(list[0].filesystem, "ext4");
    assert_eq!(list[1].filesystem, "vfat");
    assert_eq!(list[2].filesystem, "ext3");
    assert_eq!(list[1].used, 2_000);
    assert_eq!(list[1].capacity, "0G");
    assert_eq!(list[2].used, 94_100);
    assert_eq!(list[2].capacity, "2G");
    assert!(parse_disks("").expect("nothing is no error").is_empty());
    assert!(parse_disks("heading\n/dev/sda1 ext4\n").is_none());
}

#[test]
fn static_information_joins_two_reports() {
    assert_eq!(
        static_info("Linux host 6.1\n", "H/W path  Device\n/0  bus\n"),
        strings(&["Linux host 6.1", "\n", "H/W path  Device", "/0  bus"])
    );
    assert_eq!(static_info("", ""), strings(&["\n"]));
}

#[test]
fn a_partition_is_labelled_by_its_file_system() {
    let listing = "Filesystem Type 1K-blocks Used Available Use% Mounted on
/dev/sda1 ext4 125829120 118405202 7423918 94% /
tmpfs tmpfs 8000000 0 8000000 0% /run
";
    let list = parse_disks(listing).expect("the listing is well-formed");
    assert_eq!(list.len(), 1);
    assert_eq!(list[0].used, 94_000);
    assert_eq!(list[0].filesystem, "ext4");
    assert_eq!(list[0].capacity, "120G");
}
