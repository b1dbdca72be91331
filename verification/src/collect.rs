//! From the output of the system tools to the records that collectors
//! write.
//!
//! A reading that cannot be made sense of gives nothing, and the collector
//! then writes nothing in that cycle.

use crate::parse::{
    before_mark, chars_of, columns, contains_text, decimal_text, decimal_u32, digit_char,
    digit_text, find_in, find_text, has_prefix, holds, lines, number_text, number_u64,
    parse_decimal, parse_number, parts, split_columns, split_lines, split_on, starts_with,
    take_until, texts, trim_text, trimmed,
};
use crate::tasks::{ProcessInfo, ProcessRow};
use crate::telemetry::{DiskRow, DiskSample, MemorySample, FULL};
use vstd::prelude::*;
use vstd::string::{StrSliceExecFns, StringExecFns};

verus! {

/// The number of columns of a process listing: pid, nice value, status,
/// user, cpu share, memory share, command line.
pub const PROCESS_COLUMNS: usize = 7;

/// What a line of a listing turns out to be.
pub enum Line<T> {
    /// Not a line of the listing.
    Skipped,
    /// A line of the listing that cannot be read.
    Malformed,
    /// A line of the listing.
    Read(T),
}

/// What a line of a process listing turns out to be. A line that does not
/// have seven columns is none of the listing. One that has must hold a pid
/// and two shares that can be read and fit; the command line is the last
/// column and takes the rest of the line.
pub open spec fn process_line(line: Seq<char>) -> Line<ProcessRow> {
    let cells = columns(line, PROCESS_COLUMNS as nat);
    if cells.len() != PROCESS_COLUMNS {
        Line::Skipped
    } else {
        match (number_u64(cells[0]), decimal_u32(cells[4]), decimal_u32(cells[5])) {
            (Some(pid), Some(cpu), Some(memory)) => if pid <= usize::MAX {
                Line::Read(
                    ProcessRow {
                        pid: pid as nat,
                        nice: cells[1],
                        status: cells[2],
                        user: cells[3],
                        cpu: cpu as nat,
                        memory: memory as nat,
                        cmd: cells[6],
                    },
                )
            } else {
                Line::Malformed
            },
            _ => Line::Malformed,
        }
    }
}

/// The processes of the lines from `at` on, unless one of them is malformed.
pub open spec fn process_rows_from(all: Seq<Seq<char>>, at: int) -> Option<Seq<ProcessRow>>
    decreases all.len() - at,
{
    if at < 0 || at >= all.len() {
        Some(Seq::empty())
    } else {
        match process_line(all[at]) {
            Line::Skipped => process_rows_from(all, at + 1),
            Line::Malformed => None,
            Line::Read(row) => match process_rows_from(all, at + 1) {
                Some(rest) => Some(seq![row] + rest),
                None => None,
            },
        }
    }
}

/// The processes that a listing shows: those of its lines behind the
/// heading, in their order. A listing with a malformed line shows none.
pub open spec fn process_rows(output: Seq<char>) -> Option<Seq<ProcessRow>> {
    process_rows_from(lines(output), 1)
}

/// The rows of a list of process records.
pub open spec fn rows_of(list: Seq<ProcessInfo>) -> Seq<ProcessRow> {
    Seq::new(list.len(), |i: int| list[i]@)
}

/// Reads one line of a process listing.
pub fn parse_process(line: &str) -> (r: Line<ProcessInfo>)
    ensures
        match process_line(line@) {
            Line::Skipped => r is Skipped,
            Line::Malformed => r is Malformed,
            Line::Read(row) => r matches Line::Read(info) && info@ == row,
        },
{
    let mut cells = split_columns(line, PROCESS_COLUMNS);
    if cells.len() != PROCESS_COLUMNS {
        return Line::Skipped;
    }
    proof {
        assert(forall|i: int| 0 <= i < 7 ==> #[trigger] texts(cells@)[i] == cells@[i]@);
    }
    let pid = parse_number(cells[0].as_str());
    let cpu = parse_decimal(cells[4].as_str());
    let memory = parse_decimal(cells[5].as_str());
    match (pid, cpu, memory) {
        (Some(pid), Some(cpu), Some(memory)) => {
            if pid > usize::MAX as u64 {
                return Line::Malformed;
            }
            let cmd = cells.pop().unwrap();
            let _ = cells.pop();
            let _ = cells.pop();
            let user = cells.pop().unwrap();
            let status = cells.pop().unwrap();
            let nice = cells.pop().unwrap();
            Line::Read(ProcessInfo { pid: pid as usize, nice, status, user, cpu, memory, cmd })
        },
        _ => Line::Malformed,
    }
}

/// Reads a process listing: the lines behind the heading that have the
/// columns of the listing, in their order. A listing with a malformed line
/// gives nothing.
pub fn parse_processes(output: &str) -> (r: Option<Vec<ProcessInfo>>)
    ensures
        match process_rows(output@) {
            Some(rows) => r matches Some(list) && rows_of(list@) == rows,
            None => r is None,
        },
{
    let all = split_lines(output);
    let mut list: Vec<ProcessInfo> = Vec::new();
    let mut at: usize = 1;
    proof {
        assert(rows_of(list@) =~= Seq::<ProcessRow>::empty());
        assert(forall|rest: Seq<ProcessRow>| Seq::<ProcessRow>::empty() + rest =~= rest);
    }
    while at < all.len()
        invariant
            1 <= at,
            texts(all@) == lines(output@),
            process_rows(output@) == (match process_rows_from(lines(output@), at as int) {
                Some(rest) => Some(rows_of(list@) + rest),
                None => None,
            }),
        decreases all@.len() - at,
    {
        let ghost before = rows_of(list@);
        proof {
            assert(texts(all@)[at as int] == all@[at as int]@);
        }
        match parse_process(all[at].as_str()) {
            Line::Skipped => {},
            Line::Malformed => {
                return None;
            },
            Line::Read(info) => {
                list.push(info);
                proof {
                    let row = info@;
                    assert(rows_of(list@) =~= before + seq![row]);
                    match process_rows_from(lines(output@), at + 1) {
                        Some(rest) => {
                            assert(before + (seq![row] + rest) =~= (before + seq![row]) + rest);
                        },
                        None => {},
                    }
                }
            },
        }
        at = at + 1;
    }
    proof {
        assert(rows_of(list@) + Seq::<ProcessRow>::empty() =~= rows_of(list@));
    }
    Some(list)
}

/// The share that `part` is of `total`, in thousandths of a percent,
/// rounded down; nothing of nothing, and no more than the share can hold.
pub open spec fn share_of(part: nat, total: nat) -> nat {
    if total == 0 {
        0
    } else if part * 100_000 / total > u32::MAX {
        u32::MAX as nat
    } else {
        part * 100_000 / total
    }
}

/// The share that `part` is of `total`, in thousandths of a percent.
pub fn share(part: u64, total: u64) -> (r: u32)
    ensures
        r == share_of(part as nat, total as nat),
{
    if total == 0 {
        return 0;
    }
    assert(part * 100_000 <= u64::MAX * 100_000) by (nonlinear_arith)
        requires
            part <= u64::MAX,
    ;
    let scaled: u128 = part as u128 * 100_000;
    let quotient: u128 = scaled / total as u128;
    if quotient > u32::MAX as u128 {
        u32::MAX
    } else {
        quotient as u32
    }
}

/// The multiple of `unit` nearest to `amount`, in units; halves go up.
pub open spec fn rounded(amount: nat, unit: nat) -> nat {
    (amount + unit / 2) / unit
}

/// A number of bytes in gigabytes, with two decimals and the unit.
pub open spec fn gigabytes(bytes: nat) -> Seq<char> {
    let hundredths = rounded(bytes * 100, 0x4000_0000);
    decimal_text(hundredths / 100) + seq![
        '.',
        digit_char(hundredths % 100 / 10),
        digit_char(hundredths % 10),
        'G',
    ]
}

/// A number of kilobytes in whole gigabytes, with the unit.
pub open spec fn whole_gigabytes(kilobytes: nat) -> Seq<char> {
    decimal_text(rounded(kilobytes, 0x10_0000)) + seq!['G']
}

/// A number of bytes in gigabytes, with two decimals and the unit.
pub fn gigabytes_label(bytes: u64) -> (r: String)
    ensures
        r@ == gigabytes(bytes as nat),
{
    assert(bytes * 100 <= u64::MAX * 100) by (nonlinear_arith)
        requires
            bytes <= u64::MAX,
    ;
    let hundredths: u128 = (bytes as u128 * 100 + 0x2000_0000) / 0x4000_0000;
    let whole = (hundredths / 100) as u64;
    let tenth = ((hundredths % 100) / 10) as u64;
    let hundredth = (hundredths % 10) as u64;
    let mut r = number_text(whole);
    proof {
        reveal_strlit(".");
        reveal_strlit("G");
    }
    r.append(".");
    r.append(digit_text(tenth));
    r.append(digit_text(hundredth));
    r.append("G");
    assert(r@ =~= gigabytes(bytes as nat));
    r
}

/// A number of kilobytes in whole gigabytes, with the unit.
pub fn whole_gigabytes_label(kilobytes: u64) -> (r: String)
    ensures
        r@ == whole_gigabytes(kilobytes as nat),
{
    let whole = ((kilobytes as u128 + 0x8_0000) / 0x10_0000) as u64;
    let mut r = number_text(whole);
    proof {
        reveal_strlit("G");
    }
    r.append("G");
    assert(r@ =~= whole_gigabytes(kilobytes as nat));
    r
}

/// The numbers of a memory report, in bytes.
pub struct MemoryReading {
    pub ram_total: u64,
    pub ram_used: u64,
    pub ram_buffered: u64,
    pub swap_total: u64,
    pub swap_used: u64,
}

/// The numbers that a memory report shows. Its second line is that of the
/// memory, with seven columns, of which the second, third and sixth are the
/// total, the used and the buffered bytes; its third line is that of the
/// swap space, with four columns, of which the second and third are the
/// total and the used bytes.
pub open spec fn memory_reading(output: Seq<char>) -> Option<MemoryReading> {
    let all = lines(output);
    if all.len() < 3 {
        None
    } else {
        let ram = columns(all[1], 7);
        let swap = columns(all[2], 4);
        if ram.len() != 7 || swap.len() != 4 {
            None
        } else {
            match (
                number_u64(ram[1]),
                number_u64(ram[2]),
                number_u64(ram[5]),
                number_u64(swap[1]),
                number_u64(swap[2]),
            ) {
                (
                    Some(ram_total),
                    Some(ram_used),
                    Some(ram_buffered),
                    Some(swap_total),
                    Some(swap_used),
                ) => Some(
                    MemoryReading { ram_total, ram_used, ram_buffered, swap_total, swap_used },
                ),
                _ => None,
            }
        }
    }
}

/// Whether `sample` is what the numbers of a memory report and the label of
/// the technology amount to: used and buffered memory and used swap space as
/// shares of their totals, no buffered swap space, and the totals in
/// gigabytes as labels.
pub open spec fn sample_shows(sample: MemorySample, reading: MemoryReading, technology: String) -> bool {
    &&& sample.ram_used == share_of(reading.ram_used as nat, reading.ram_total as nat)
    &&& sample.ram_buffered == share_of(reading.ram_buffered as nat, reading.ram_total as nat)
    &&& sample.swap_used == share_of(reading.swap_used as nat, reading.swap_total as nat)
    &&& sample.swap_buffered == 0
    &&& sample.technology == technology
    &&& sample.capacity@ == gigabytes(reading.ram_total as nat)
    &&& sample.swap_capacity@ == gigabytes(reading.swap_total as nat)
}

/// Reads a memory report.
pub fn parse_memory(output: &str, technology: String) -> (r: Option<MemorySample>)
    ensures
        match memory_reading(output@) {
            Some(reading) => r matches Some(sample) && sample_shows(sample, reading, technology),
            None => r is None,
        },
{
    let all = split_lines(output);
    if all.len() < 3 {
        return None;
    }
    proof {
        assert(texts(all@)[1] == all@[1]@);
        assert(texts(all@)[2] == all@[2]@);
    }
    let ram = split_columns(all[1].as_str(), 7);
    let swap = split_columns(all[2].as_str(), 4);
    if ram.len() != 7 || swap.len() != 4 {
        return None;
    }
    proof {
        assert(forall|i: int| 0 <= i < 7 ==> #[trigger] texts(ram@)[i] == ram@[i]@);
        assert(forall|i: int| 0 <= i < 4 ==> #[trigger] texts(swap@)[i] == swap@[i]@);
    }
    let ram_total = parse_number(ram[1].as_str());
    let ram_used = parse_number(ram[2].as_str());
    let ram_buffered = parse_number(ram[5].as_str());
    let swap_total = parse_number(swap[1].as_str());
    let swap_used = parse_number(swap[2].as_str());
    match (ram_total, ram_used, ram_buffered, swap_total, swap_used) {
        (Some(ram_total), Some(ram_used), Some(ram_buffered), Some(swap_total), Some(swap_used)) => {
            Some(
                MemorySample {
                    ram_used: share(ram_used, ram_total),
                    ram_buffered: share(ram_buffered, ram_total),
                    swap_used: share(swap_used, swap_total),
                    swap_buffered: 0,
                    technology,
                    capacity: gigabytes_label(ram_total),
                    swap_capacity: gigabytes_label(swap_total),
                },
            )
        },
        _ => None,
    }
}

/// The label of the memory technology in the lines from `at` on: what
/// follows `Type: ` on the first line that starts with it, white space
/// around the line not counted; `DDR3` if there is no such line.
pub open spec fn technology_from(all: Seq<Seq<char>>, at: int) -> Seq<char>
    decreases all.len() - at,
{
    if at < 0 || at >= all.len() {
        "DDR3"@
    } else if starts_with(trimmed(all[at]), "Type: "@) {
        trimmed(all[at]).skip("Type: "@.len() as int)
    } else {
        technology_from(all, at + 1)
    }
}

/// The label of the memory technology that a hardware report names.
pub fn memory_technology(output: &str) -> (r: String)
    ensures
        r@ == technology_from(lines(output@), 0),
{
    let all = split_lines(output);
    let wanted = "Type: ";
    let skip = wanted.unicode_len();
    let mut at: usize = 0;
    while at < all.len()
        invariant
            texts(all@) == lines(output@),
            wanted@ == "Type: "@,
            skip == wanted@.len(),
            technology_from(lines(output@), 0) == technology_from(lines(output@), at as int),
        decreases all@.len() - at,
    {
        proof {
            assert(texts(all@)[at as int] == all@[at as int]@);
        }
        let line = trim_text(all[at].as_str());
        if has_prefix(line.as_str(), wanted) {
            let n = line.as_str().unicode_len();
            let r = String::from_str(line.as_str().substring_char(skip, n));
            assert(r@ =~= line@.skip(skip as int));
            return r;
        }
        at = at + 1;
    }
    String::from_str("DDR3")
}

/// What is left of the whole beside an idle share; nothing where the idle
/// share exceeds the whole.
pub open spec fn usage_of(idle: u32) -> u32 {
    if idle <= FULL {
        (FULL - idle) as u32
    } else {
        0
    }
}

/// The first of the parts from `at` on that names the idle share.
pub open spec fn idle_part(cells: Seq<Seq<char>>, at: int) -> Option<Seq<char>>
    decreases cells.len() - at,
{
    if at < 0 || at >= cells.len() {
        None
    } else if holds(cells[at], "id"@) {
        Some(cells[at])
    } else {
        idle_part(cells, at + 1)
    }
}

/// The idle share that a line of a processor report names, in thousandths
/// of a percent: the line, white space around it not counted, is parted at
/// commas into at most seven parts; the first part that holds `id` starts,
/// behind white space, with the share, which ends at the first blank.
pub open spec fn idle_of(line: Seq<char>) -> Option<u32> {
    match idle_part(parts(trimmed(line), 0, trimmed(line).len() as int, ',', 7), 0) {
        Some(part) => decimal_u32(trimmed(before_mark(trimmed(part), ' '))),
        None => None,
    }
}

/// The usage of each core in the lines from `at` on: one for every line
/// that starts with `%Cpu`, unless such a line names no idle share.
pub open spec fn usages_from(all: Seq<Seq<char>>, at: int) -> Option<Seq<u32>>
    decreases all.len() - at,
{
    if at < 0 || at >= all.len() {
        Some(Seq::empty())
    } else if !starts_with(all[at], "%Cpu"@) {
        usages_from(all, at + 1)
    } else {
        match (idle_of(all[at]), usages_from(all, at + 1)) {
            (Some(idle), Some(rest)) => Some(seq![usage_of(idle)] + rest),
            _ => None,
        }
    }
}

/// The first report of a processor listing: what stands between the first
/// `top - ` and the next one, or the end of the listing.
pub open spec fn first_report(output: Seq<char>) -> Option<Seq<char>> {
    let mark = "top - "@;
    match find_in(output, mark, 0, output.len() as int) {
        None => None,
        Some(first) => match find_in(output, mark, first + mark.len(), output.len() as int) {
            Some(second) => Some(output.subrange(first + mark.len(), second)),
            None => Some(output.subrange(first + mark.len(), output.len() as int)),
        },
    }
}

/// The usage of each core that a processor listing shows in its first
/// report.
pub open spec fn cpu_usages(output: Seq<char>) -> Option<Seq<u32>> {
    match first_report(output) {
        Some(report) => usages_from(lines(report), 0),
        None => None,
    }
}

/// Reads the idle share that a line of a processor report names.
pub fn parse_idle(line: &str) -> (r: Option<u32>)
    ensures
        r == idle_of(line@),
{
    let whole = trim_text(line);
    let cells = split_on(whole.as_str(), ',', 7);
    let mut at: usize = 0;
    while at < cells.len()
        invariant
            whole@ == trimmed(line@),
            texts(cells@) == parts(whole@, 0, whole@.len() as int, ',', 7),
            idle_part(texts(cells@), 0) == idle_part(texts(cells@), at as int),
        decreases cells@.len() - at,
    {
        proof {
            assert(texts(cells@)[at as int] == cells@[at as int]@);
        }
        if contains_text(cells[at].as_str(), "id") {
            let part = trim_text(cells[at].as_str());
            let token = take_until(part.as_str(), ' ');
            let number = trim_text(token.as_str());
            return parse_decimal(number.as_str());
        }
        at = at + 1;
    }
    None
}

/// Reads a processor listing: the usage of each core in its first report.
pub fn parse_cpu(output: &str) -> (r: Option<Vec<u32>>)
    ensures
        match cpu_usages(output@) {
            Some(usages) => r matches Some(list) && list@ == usages,
            None => r is None,
        },
{
    let chars = chars_of(output);
    let mark = chars_of("top - ");
    let first = match find_text(&chars, &mark, 0, chars.len()) {
        Some(first) => first,
        None => {
            return None;
        },
    };
    let start = first + mark.len();
    let end = match find_text(&chars, &mark, start, chars.len()) {
        Some(second) => second,
        None => chars.len(),
    };
    let report = output.substring_char(start, end);
    let all = split_lines(report);
    let mut list: Vec<u32> = Vec::new();
    let mut at: usize = 0;
    proof {
        assert(forall|rest: Seq<u32>| Seq::<u32>::empty() + rest =~= rest);
    }
    while at < all.len()
        invariant
            texts(all@) == lines(report@),
            first_report(output@) == Some(report@),
            cpu_usages(output@) == (match usages_from(lines(report@), at as int) {
                Some(rest) => Some(list@ + rest),
                None => None,
            }),
        decreases all@.len() - at,
    {
        let ghost before = list@;
        proof {
            assert(texts(all@)[at as int] == all@[at as int]@);
        }
        if has_prefix(all[at].as_str(), "%Cpu") {
            match parse_idle(all[at].as_str()) {
                Some(idle) => {
                    let usage = if idle <= FULL {
                        FULL - idle
                    } else {
                        0
                    };
                    list.push(usage);
                    proof {
                        match usages_from(lines(report@), at + 1) {
                            Some(rest) => {
                                assert(before + (seq![usage] + rest) =~= (before + seq![usage])
                                    + rest);
                            },
                            None => {},
                        }
                    }
                },
                None => {
                    return None;
                },
            }
        }
        at = at + 1;
    }
    proof {
        assert(list@ + Seq::<u32>::empty() =~= list@);
    }
    Some(list)
}

/// What a line of a partition listing turns out to be. Only lines that hold
/// `ext` or `fat` are of the listing. Such a line must have six columns or
/// more: the second names the file system and is the label, the third is
/// the size in kilobytes, and the sixth starts with the share in use, which
/// ends at the percent sign.
pub open spec fn disk_line(line: Seq<char>) -> Line<DiskRow> {
    if !(holds(line, "ext"@) || holds(line, "fat"@)) {
        Line::Skipped
    } else {
        let cells = columns(line, usize::MAX as nat);
        if cells.len() < 6 {
            Line::Malformed
        } else {
            match (decimal_u32(before_mark(cells[5], '%')), number_u64(cells[2])) {
                (Some(used), Some(size)) => Line::Read(
                    DiskRow {
                        used,
                        filesystem: cells[1],
                        capacity: whole_gigabytes(size as nat),
                    },
                ),
                _ => Line::Malformed,
            }
        }
    }
}

/// The partitions of the lines from `at` on, unless one of them is
/// malformed.
pub open spec fn disk_rows_from(all: Seq<Seq<char>>, at: int) -> Option<Seq<DiskRow>>
    decreases all.len() - at,
{
    if at < 0 || at >= all.len() {
        Some(Seq::empty())
    } else {
        match disk_line(all[at]) {
            Line::Skipped => disk_rows_from(all, at + 1),
            Line::Malformed => None,
            Line::Read(row) => match disk_rows_from(all, at + 1) {
                Some(rest) => Some(seq![row] + rest),
                None => None,
            },
        }
    }
}

/// The partitions that a listing shows: those of its lines behind the
/// heading, in their order. A listing with a malformed line shows none.
pub open spec fn disk_rows(output: Seq<char>) -> Option<Seq<DiskRow>> {
    disk_rows_from(lines(output), 1)
}

/// The rows of a list of partitions.
pub open spec fn disks_of(list: Seq<DiskSample>) -> Seq<DiskRow> {
    Seq::new(list.len(), |i: int| list[i]@)
}

/// Reads one line of a partition listing.
pub fn parse_disk(line: &str) -> (r: Line<DiskSample>)
    ensures
        match disk_line(line@) {
            Line::Skipped => r is Skipped,
            Line::Malformed => r is Malformed,
            Line::Read(row) => r matches Line::Read(sample) && sample@ == row,
        },
{
    if !(contains_text(line, "ext") || contains_text(line, "fat")) {
        return Line::Skipped;
    }
    let cells = split_columns(line, usize::MAX);
    if cells.len() < 6 {
        return Line::Malformed;
    }
    proof {
        assert(forall|i: int| 0 <= i < 6 ==> #[trigger] texts(cells@)[i] == cells@[i]@);
    }
    let share = take_until(cells[5].as_str(), '%');
    let used = parse_decimal(share.as_str());
    let size = parse_number(cells[2].as_str());
    match (used, size) {
        (Some(used), Some(size)) => Line::Read(
            DiskSample {
                used,
                filesystem: cells[1].clone(),
                capacity: whole_gigabytes_label(size),
            },
        ),
        _ => Line::Malformed,
    }
}

/// Reads a partition listing: the lines behind the heading that are of the
/// listing, in their order. A listing with a malformed line gives nothing.
pub fn parse_disks(output: &str) -> (r: Option<Vec<DiskSample>>)
    ensures
        match disk_rows(output@) {
            Some(rows) => r matches Some(list) && disks_of(list@) == rows,
            None => r is None,
        },
{
    let all = split_lines(output);
    let mut list: Vec<DiskSample> = Vec::new();
    let mut at: usize = 1;
    proof {
        assert(disks_of(list@) =~= Seq::<DiskRow>::empty());
        assert(forall|rest: Seq<DiskRow>| Seq::<DiskRow>::empty() + rest =~= rest);
    }
    while at < all.len()
        invariant
            1 <= at,
            texts(all@) == lines(output@),
            disk_rows(output@) == (match disk_rows_from(lines(output@), at as int) {
                Some(rest) => Some(disks_of(list@) + rest),
                None => None,
            }),
        decreases all@.len() - at,
    {
        let ghost before = disks_of(list@);
        proof {
            assert(texts(all@)[at as int] == all@[at as int]@);
        }
        match parse_disk(all[at].as_str()) {
            Line::Skipped => {},
            Line::Malformed => {
                return None;
            },
            Line::Read(sample) => {
                list.push(sample);
                proof {
                    let row = sample@;
                    assert(disks_of(list@) =~= before + seq![row]);
                    match disk_rows_from(lines(output@), at + 1) {
                        Some(rest) => {
                            assert(before + (seq![row] + rest) =~= (before + seq![row]) + rest);
                        },
                        None => {},
                    }
                }
            },
        }
        at = at + 1;
    }
    proof {
        assert(disks_of(list@) + Seq::<DiskRow>::empty() =~= disks_of(list@));
    }
    Some(list)
}

/// The lines of static information: those of the system report, a line
/// that holds a line feed alone, and those of the hardware report.
pub fn static_info(system: &str, hardware: &str) -> (r: Vec<String>)
    ensures
        texts(r@) == lines(system@) + seq!["\n"@] + lines(hardware@),
{
    let mut r = split_lines(system);
    let ghost first = texts(r@);
    r.push(String::from_str("\n"));
    assert(texts(r@) =~= first + seq!["\n"@]);
    let mut rest = split_lines(hardware);
    let ghost second = texts(r@);
    let ghost third = texts(rest@);
    r.append(&mut rest);
    assert(texts(r@) =~= second + third);
    r
}

} // verus!
