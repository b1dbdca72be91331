//! The process list and the order in which the process table shows it.

use crate::text::{bytes_le, lemma_bytes_le_total, lemma_bytes_le_transitive, text_le};
use vstd::prelude::*;
use vstd::utf8::encode_utf8;

verus! {

/// One process as a sample shows it. Percentages are in thousandths of a
/// percent.
#[derive(Debug)]
pub struct ProcessInfo {
    pub pid: usize,
    pub nice: String,
    pub status: String,
    pub user: String,
    pub cpu: u32,
    pub memory: u32,
    pub cmd: String,
}

/// A process record as the contracts of the readers speak of it.
pub struct ProcessRow {
    pub pid: nat,
    pub nice: Seq<char>,
    pub status: Seq<char>,
    pub user: Seq<char>,
    pub cpu: nat,
    pub memory: nat,
    pub cmd: Seq<char>,
}

impl View for ProcessInfo {
    type V = ProcessRow;

    open spec fn view(&self) -> ProcessRow {
        ProcessRow {
            pid: self.pid as nat,
            nice: self.nice@,
            status: self.status@,
            user: self.user@,
            cpu: self.cpu as nat,
            memory: self.memory as nat,
            cmd: self.cmd@,
        }
    }
}

impl ProcessInfo {
    /// A copy of the record.
    pub fn duplicate(&self) -> (r: Self)
        ensures
            r == *self,
    {
        ProcessInfo {
            pid: self.pid,
            nice: self.nice.clone(),
            status: self.status.clone(),
            user: self.user.clone(),
            cpu: self.cpu,
            memory: self.memory,
            cmd: self.cmd.clone(),
        }
    }
}

/// A copy of a process list.
pub fn duplicate_all(list: &[ProcessInfo]) -> (r: Vec<ProcessInfo>)
    ensures
        r@ == list@,
{
    let mut r: Vec<ProcessInfo> = Vec::new();
    let mut i: usize = 0;
    while i < list.len()
        invariant
            i <= list@.len(),
            r@ == list@.take(i as int),
        decreases list@.len() - i,
    {
        r.push(list[i].duplicate());
        i = i + 1;
        assert(r@ =~= list@.take(i as int));
    }
    assert(list@.take(list@.len() as int) =~= list@);
    r
}

/// The column by which the process table is ordered.
#[derive(Debug, Clone, Copy, PartialEq, Eq, Structural)]
pub enum ItemSort {
    Pid,
    Nice,
    Status,
    User,
    Cpu,
    Memory,
    Cmd,
}

impl ItemSort {
    /// The sort key of the column with the given number.
    pub open spec fn by_spec(u: usize) -> Self {
        if u == 0 {
            ItemSort::Pid
        } else if u == 1 {
            ItemSort::Nice
        } else if u == 2 {
            ItemSort::Status
        } else if u == 3 {
            ItemSort::User
        } else if u == 4 {
            ItemSort::Cpu
        } else if u == 5 {
            ItemSort::Memory
        } else if u == 6 {
            ItemSort::Cmd
        } else {
            ItemSort::Nice
        }
    }

    /// The sort key of the column with the given number, counted from the
    /// left; a number that names no column gives the nice value.
    #[verifier::when_used_as_spec(by_spec)]
    pub fn by<>(u: usize) -> (r: Self)
        ensures
            r == Self::by_spec(u),
    {
        match u {
            0 => ItemSort::Pid,
            1 => ItemSort::Nice,
            2 => ItemSort::Status,
            3 => ItemSort::User,
            4 => ItemSort::Cpu,
            5 => ItemSort::Memory,
            6 => ItemSort::Cmd,
            _ => ItemSort::Nice,
        }
    }

    /// Whether a column starts out in descending order when it becomes the
    /// sort key: status, cpu and memory do.
    pub open spec fn descends_spec(self) -> bool {
        self == ItemSort::Status || self == ItemSort::Cpu || self == ItemSort::Memory
    }

    /// Whether a column starts out in descending order when it becomes the
    /// sort key.
    #[verifier::when_used_as_spec(descends_spec)]
    pub fn descends(self) -> (r: bool)
        ensures
            r == self.descends_spec(),
    {
        match self {
            ItemSort::Pid => false,
            ItemSort::Nice => false,
            ItemSort::Status => true,
            ItemSort::User => false,
            ItemSort::Cpu => true,
            ItemSort::Memory => true,
            ItemSort::Cmd => false,
        }
    }
}

/// Whether `a` comes before `b` or ties with it under the key: numbers by
/// value, text byte by byte.
pub open spec fn key_le(key: ItemSort, a: ProcessInfo, b: ProcessInfo) -> bool {
    match key {
        ItemSort::Pid => a.pid <= b.pid,
        ItemSort::Nice => bytes_le(encode_utf8(a.nice@), encode_utf8(b.nice@)),
        ItemSort::Status => bytes_le(encode_utf8(a.status@), encode_utf8(b.status@)),
        ItemSort::User => bytes_le(encode_utf8(a.user@), encode_utf8(b.user@)),
        ItemSort::Cpu => a.cpu <= b.cpu,
        ItemSort::Memory => a.memory <= b.memory,
        ItemSort::Cmd => bytes_le(encode_utf8(a.cmd@), encode_utf8(b.cmd@)),
    }
}

/// Whether `a` may stand before `b` in a table ordered by `key`, descending
/// if `rev`.
pub open spec fn in_order(key: ItemSort, rev: bool, a: ProcessInfo, b: ProcessInfo) -> bool {
    if rev {
        key_le(key, b, a)
    } else {
        key_le(key, a, b)
    }
}

/// Of two records one may stand before the other.
pub proof fn lemma_in_order_total(key: ItemSort, rev: bool, a: ProcessInfo, b: ProcessInfo)
    ensures
        in_order(key, rev, a, b) || in_order(key, rev, b, a),
{
    lemma_bytes_le_total(encode_utf8(a.nice@), encode_utf8(b.nice@));
    lemma_bytes_le_total(encode_utf8(a.status@), encode_utf8(b.status@));
    lemma_bytes_le_total(encode_utf8(a.user@), encode_utf8(b.user@));
    lemma_bytes_le_total(encode_utf8(a.cmd@), encode_utf8(b.cmd@));
}

/// Standing in order is transitive.
pub proof fn lemma_in_order_transitive(
    key: ItemSort,
    rev: bool,
    a: ProcessInfo,
    b: ProcessInfo,
    c: ProcessInfo,
)
    requires
        in_order(key, rev, a, b),
        in_order(key, rev, b, c),
    ensures
        in_order(key, rev, a, c),
{
    if rev {
        match key {
            ItemSort::Nice => lemma_bytes_le_transitive(
                encode_utf8(c.nice@),
                encode_utf8(b.nice@),
                encode_utf8(a.nice@),
            ),
            ItemSort::Status => lemma_bytes_le_transitive(
                encode_utf8(c.status@),
                encode_utf8(b.status@),
                encode_utf8(a.status@),
            ),
            ItemSort::User => lemma_bytes_le_transitive(
                encode_utf8(c.user@),
                encode_utf8(b.user@),
                encode_utf8(a.user@),
            ),
            ItemSort::Cmd => lemma_bytes_le_transitive(
                encode_utf8(c.cmd@),
                encode_utf8(b.cmd@),
                encode_utf8(a.cmd@),
            ),
            _ => {},
        }
    } else {
        match key {
            ItemSort::Nice => lemma_bytes_le_transitive(
                encode_utf8(a.nice@),
                encode_utf8(b.nice@),
                encode_utf8(c.nice@),
            ),
            ItemSort::Status => lemma_bytes_le_transitive(
                encode_utf8(a.status@),
                encode_utf8(b.status@),
                encode_utf8(c.status@),
            ),
            ItemSort::User => lemma_bytes_le_transitive(
                encode_utf8(a.user@),
                encode_utf8(b.user@),
                encode_utf8(c.user@),
            ),
            ItemSort::Cmd => lemma_bytes_le_transitive(
                encode_utf8(a.cmd@),
                encode_utf8(b.cmd@),
                encode_utf8(c.cmd@),
            ),
            _ => {},
        }
    }
}

/// Whether `a` comes before `b` or ties with it under the key.
pub fn compare_keys(key: ItemSort, a: &ProcessInfo, b: &ProcessInfo) -> (r: bool)
    ensures
        r == key_le(key, *a, *b),
{
    match key {
        ItemSort::Pid => a.pid <= b.pid,
        ItemSort::Nice => text_le(a.nice.as_str(), b.nice.as_str()),
        ItemSort::Status => text_le(a.status.as_str(), b.status.as_str()),
        ItemSort::User => text_le(a.user.as_str(), b.user.as_str()),
        ItemSort::Cpu => a.cpu <= b.cpu,
        ItemSort::Memory => a.memory <= b.memory,
        ItemSort::Cmd => text_le(a.cmd.as_str(), b.cmd.as_str()),
    }
}

/// Whether `output` is `input` in the order of `key`, descending if `rev`,
/// where `origin[i]` is the place in `input` of the record at place `i` of
/// `output`: the records are the same ones, each taken once; they stand in
/// order; and records that tie keep the order they had in `input`.
pub open spec fn sorted_from(
    input: Seq<ProcessInfo>,
    output: Seq<ProcessInfo>,
    origin: Seq<int>,
    key: ItemSort,
    rev: bool,
) -> bool {
    &&& output.len() == input.len()
    &&& origin.len() == input.len()
    &&& forall|i: int| 0 <= i < origin.len() ==> 0 <= #[trigger] origin[i] < input.len()
    &&& forall|i: int, j: int|
        0 <= i < j < origin.len() ==> #[trigger] origin[i] != #[trigger] origin[j]
    &&& forall|i: int| 0 <= i < output.len() ==> #[trigger] output[i] == input[origin[i]]
    &&& forall|i: int, j: int|
        0 <= i < j < output.len() ==> in_order(key, rev, #[trigger] output[i], #[trigger] output[j])
    &&& forall|i: int, j: int|
        0 <= i < j < output.len() && in_order(key, rev, #[trigger] output[j], #[trigger] output[i])
            ==> origin[i] < origin[j]
}

/// Whether `output` is the stable sort of `input` by `key`, descending if
/// `rev`.
pub open spec fn stable_sorted(
    input: Seq<ProcessInfo>,
    output: Seq<ProcessInfo>,
    key: ItemSort,
    rev: bool,
) -> bool {
    exists|origin: Seq<int>| sorted_from(input, output, origin, key, rev)
}

/// Places that take every record of a list once take each record of it.
pub proof fn lemma_origin_onto(origin: Seq<int>, wanted: int)
    requires
        forall|i: int| 0 <= i < origin.len() ==> 0 <= #[trigger] origin[i] < origin.len(),
        forall|i: int, j: int|
            0 <= i < j < origin.len() ==> #[trigger] origin[i] != #[trigger] origin[j],
        0 <= wanted < origin.len(),
    ensures
        exists|i: int| 0 <= i < origin.len() && origin[i] == wanted,
{
    let n = origin.len() as int;
    let all = vstd::set_lib::set_int_range(0, n);
    assert(origin.no_duplicates()) by {
        assert forall|i: int, j: int|
            0 <= i < origin.len() && 0 <= j < origin.len() && i != j implies origin[i]
            != origin[j] by {
            if i < j {
                assert(origin[i] != origin[j]);
            } else {
                assert(origin[j] != origin[i]);
            }
        }
    }
    origin.unique_seq_to_set();
    vstd::set_lib::lemma_int_range(0, n);
    assert(origin.to_set().subset_of(all)) by {
        assert forall|v: int| origin.to_set().contains(v) implies all.contains(v) by {
            let i = choose|i: int| 0 <= i < origin.len() && origin[i] == v;
            assert(0 <= origin[i] < origin.len());
        }
    }
    vstd::set_lib::lemma_len_subset(origin.to_set(), all);
    vstd::set_lib::lemma_subset_equality(origin.to_set(), all);
    assert(all.contains(wanted));
    assert(origin.to_set().contains(wanted));
    assert(origin.contains(wanted));
}

/// Two stable sorts of one list take the records from the same places, up
/// to any place.
pub proof fn lemma_origins_agree(
    input: Seq<ProcessInfo>,
    first: Seq<ProcessInfo>,
    second: Seq<ProcessInfo>,
    origin: Seq<int>,
    other: Seq<int>,
    key: ItemSort,
    rev: bool,
    upto: int,
)
    requires
        sorted_from(input, first, origin, key, rev),
        sorted_from(input, second, other, key, rev),
        0 <= upto <= input.len(),
    ensures
        forall|i: int| 0 <= i < upto ==> origin[i] == other[i],
    decreases upto,
{
    if upto > 0 {
        lemma_origins_agree(input, first, second, origin, other, key, rev, upto - 1);
        let i = upto - 1;
        let x = origin[i];
        let y = other[i];
        if x != y {
            assert(0 <= x < input.len());
            assert(0 <= y < input.len());
            lemma_origin_onto(other, x);
            let k = choose|k: int| 0 <= k < other.len() && other[k] == x;
            lemma_origin_onto(origin, y);
            let m = choose|m: int| 0 <= m < origin.len() && origin[m] == y;
            if k < i {
                assert(origin[k] == other[k]);
                assert(origin[k] != origin[i]);
            }
            if m < i {
                assert(origin[m] == other[m]);
                assert(other[m] != other[i]);
            }
            assert(i < k && i < m);
            assert(first[i] == input[x] && first[m] == input[y]);
            assert(second[i] == input[y] && second[k] == input[x]);
            assert(in_order(key, rev, first[i], first[m]));
            assert(in_order(key, rev, second[i], second[k]));
            assert(origin[i] < origin[m]);
            assert(other[i] < other[k]);
        }
    }
}

/// The stable sort of a list is determined: two lists that both are the
/// stable sort of one list are the same.
pub proof fn lemma_stable_sort_unique(
    input: Seq<ProcessInfo>,
    first: Seq<ProcessInfo>,
    second: Seq<ProcessInfo>,
    key: ItemSort,
    rev: bool,
)
    requires
        stable_sorted(input, first, key, rev),
        stable_sorted(input, second, key, rev),
    ensures
        first == second,
{
    let origin = choose|origin: Seq<int>| sorted_from(input, first, origin, key, rev);
    let other = choose|other: Seq<int>| sorted_from(input, second, other, key, rev);
    lemma_origins_agree(input, first, second, origin, other, key, rev, input.len() as int);
    assert forall|i: int| 0 <= i < first.len() implies first[i] == second[i] by {
        assert(origin[i] == other[i]);
        assert(first[i] == input[origin[i]]);
        assert(second[i] == input[other[i]]);
    }
    assert(first =~= second);
}

/// Whether `a` may stand before `b` in a table ordered by `key`, descending
/// if `rev`.
pub fn stands_before(key: ItemSort, rev: bool, a: &ProcessInfo, b: &ProcessInfo) -> (r: bool)
    ensures
        r == in_order(key, rev, *a, *b),
{
    if rev {
        compare_keys(key, b, a)
    } else {
        compare_keys(key, a, b)
    }
}

/// The stable sort of `list` by `key`, descending if `rev`.
pub fn sort_processes(list: Vec<ProcessInfo>, key: ItemSort, rev: bool) -> (r: Vec<ProcessInfo>)
    ensures
        stable_sorted(list@, r@, key, rev),
{
    let mut input = list;
    let mut output: Vec<ProcessInfo> = Vec::new();
    let ghost mut origin: Seq<int> = Seq::empty();
    while input.len() > 0
        invariant
            input@ == list@.take(input@.len() as int),
            input@.len() <= list@.len(),
            sorted_from(
                list@.skip(input@.len() as int),
                output@,
                origin.map_values(|o: int| o - input@.len()),
                key,
                rev,
            ),
            forall|i: int| 0 <= i < origin.len() ==> input@.len() <= #[trigger] origin[i],
        decreases input@.len(),
    {
        let ghost before = output@;
        let ghost before_origin = origin;
        let ghost rest = input@.len();
        let record = input.pop().unwrap();
        let ghost place = input@.len() as int;
        assert(record == list@[place]);
        let mut at: usize = 0;
        while at < output.len() && !stands_before(key, rev, &record, &output[at])
            invariant
                at <= output@.len(),
                output@ == before,
                forall|i: int| 0 <= i < at ==> !in_order(key, rev, record, #[trigger] before[i]),
            decreases output@.len() - at,
        {
            at = at + 1;
        }
        output.insert(at, record);
        proof {
            origin = origin.insert(at as int, place);
            let shifted_before = before_origin.map_values(|o: int| o - rest);
            let shifted = origin.map_values(|o: int| o - place);
            let tail = list@.skip(place);
            let old_tail = list@.skip(rest as int);
            assert(input@ =~= list@.take(place));
            assert forall|i: int| 0 <= i < origin.len() implies place <= #[trigger] origin[i] by {
                if i < at {
                    assert(origin[i] == before_origin[i]);
                } else if i > at {
                    assert(origin[i] == before_origin[i - 1]);
                }
            }
            assert forall|i: int| 0 <= i < shifted.len() implies 0 <= #[trigger] shifted[i]
                < tail.len() by {
                if i < at {
                    assert(origin[i] == before_origin[i]);
                    assert(shifted_before[i] == before_origin[i] - rest);
                } else if i > at {
                    assert(origin[i] == before_origin[i - 1]);
                    assert(shifted_before[i - 1] == before_origin[i - 1] - rest);
                }
            }
            assert forall|i: int, j: int| 0 <= i < j < shifted.len() implies #[trigger] shifted[i]
                != #[trigger] shifted[j] by {
                let oi = if i < at {
                    i
                } else {
                    i - 1
                };
                let oj = if j < at {
                    j
                } else {
                    j - 1
                };
                if i != at && j != at {
                    assert(origin[i] == before_origin[oi]);
                    assert(origin[j] == before_origin[oj]);
                    assert(shifted_before[oi] != shifted_before[oj]);
                } else if i == at {
                    assert(origin[j] == before_origin[oj]);
                    assert(before_origin[oj] >= rest);
                } else {
                    assert(origin[i] == before_origin[oi]);
                    assert(before_origin[oi] >= rest);
                }
            }
            assert forall|i: int| 0 <= i < output@.len() implies #[trigger] output@[i] == tail[
                shifted[i]
            ] by {
                if i < at {
                    assert(origin[i] == before_origin[i]);
                    assert(before[i] == old_tail[shifted_before[i]]);
                } else if i > at {
                    assert(origin[i] == before_origin[i - 1]);
                    assert(before[i - 1] == old_tail[shifted_before[i - 1]]);
                }
            }
            assert forall|i: int, j: int| 0 <= i < j < output@.len() implies in_order(
                key,
                rev,
                #[trigger] output@[i],
                #[trigger] output@[j],
            ) by {
                if j < at {
                    assert(in_order(key, rev, before[i], before[j]));
                } else if j == at {
                    lemma_in_order_total(key, rev, record, before[i]);
                } else if i > at {
                    assert(in_order(key, rev, before[i - 1], before[j - 1]));
                } else if i == at {
                    assert(in_order(key, rev, record, before[at as int]));
                    if j - 1 > at {
                        assert(in_order(key, rev, before[at as int], before[j - 1]));
                        lemma_in_order_transitive(
                            key,
                            rev,
                            record,
                            before[at as int],
                            before[j - 1],
                        );
                    }
                } else {
                    assert(in_order(key, rev, before[i], before[j - 1]));
                }
            }
            assert forall|i: int, j: int|
                0 <= i < j < output@.len() && in_order(
                    key,
                    rev,
                    #[trigger] output@[j],
                    #[trigger] output@[i],
                ) implies shifted[i] < shifted[j] by {
                if j < at {
                    assert(origin[i] == before_origin[i]);
                    assert(origin[j] == before_origin[j]);
                    assert(in_order(key, rev, before[j], before[i]));
                    assert(shifted_before[i] < shifted_before[j]);
                } else if j == at {
                    assert(!in_order(key, rev, record, before[i]));
                } else if i > at {
                    assert(origin[i] == before_origin[i - 1]);
                    assert(origin[j] == before_origin[j - 1]);
                    assert(in_order(key, rev, before[j - 1], before[i - 1]));
                    assert(shifted_before[i - 1] < shifted_before[j - 1]);
                } else if i == at {
                    assert(origin[j] == before_origin[j - 1]);
                    assert(before_origin[j - 1] >= rest);
                } else {
                    assert(origin[i] == before_origin[i]);
                    assert(origin[j] == before_origin[j - 1]);
                    assert(in_order(key, rev, before[j - 1], before[i]));
                    assert(shifted_before[i] < shifted_before[j - 1]);
                }
            }
        }
    }
    proof {
        assert(list@.skip(0) =~= list@);
        assert(origin.map_values(|o: int| o - 0) =~= origin);
    }
    output
}

/// The process table: the records in the order shown, the column
/// separators, the sort key and the direction.
pub struct TasksListChart {
    /// The processes, in the order in which the table shows them.
    pub process_info: Vec<ProcessInfo>,
    /// The column separators from left to right, in millionths of the table
    /// width.
    pub separators: Vec<u32>,
    /// The column by which the table is ordered.
    pub item_sort: ItemSort,
    /// Whether the order is descending.
    pub rev: bool,
}

impl TasksListChart {
    /// The separators with which a table starts: at 1/12, 2/12 ... 6/12 of
    /// the width.
    pub open spec fn initial_separators() -> Seq<u32> {
        seq![83_333u32, 166_666u32, 250_000u32, 333_333u32, 416_666u32, 500_000u32]
    }

    /// An empty table, ordered by memory share, largest first.
    pub fn new() -> (r: Self)
        ensures
            r.process_info@ == Seq::<ProcessInfo>::empty(),
            r.separators@ == Self::initial_separators(),
            r.item_sort == ItemSort::Memory,
            r.rev,
    {
        let mut separators: Vec<u32> = Vec::new();
        let mut i: u32 = 1;
        while i < 7
            invariant
                1 <= i <= 7,
                separators@.len() == i - 1,
                forall|k: int|
                    0 <= k < separators@.len() ==> #[trigger] separators@[k] == (k + 1) * 1_000_000
                        / 12,
            decreases 7 - i,
        {
            separators.push(i * 1_000_000 / 12);
            i = i + 1;
        }
        assert(separators@ =~= Self::initial_separators());
        TasksListChart { process_info: Vec::new(), separators, item_sort: ItemSort::Memory, rev: true }
    }

    /// Replaces the processes by a copy of `process_info`, put in the order
    /// of the table.
    pub fn set_data(&mut self, process_info: &[ProcessInfo])
        ensures
            stable_sorted(
                process_info@,
                final(self).process_info@,
                old(self).item_sort,
                old(self).rev,
            ),
            final(self).separators == old(self).separators,
            final(self).item_sort == old(self).item_sort,
            final(self).rev == old(self).rev,
    {
        self.process_info = sort_processes(duplicate_all(process_info), self.item_sort, self.rev);
    }

    /// Answers a click on the header of column `u`: the column becomes the
    /// sort key; the direction flips if it was the key already and is the
    /// column's own otherwise; the processes are put in the new order.
    pub fn sort_by(&mut self, u: usize)
        ensures
            final(self).item_sort == ItemSort::by_spec(u),
            final(self).rev == (if old(self).item_sort == ItemSort::by_spec(u) {
                !old(self).rev
            } else {
                ItemSort::by_spec(u).descends_spec()
            }),
            stable_sorted(
                old(self).process_info@,
                final(self).process_info@,
                final(self).item_sort,
                final(self).rev,
            ),
            final(self).separators == old(self).separators,
    {
        let new_sort = ItemSort::by::<>(u);
        if self.item_sort == new_sort {
            self.rev = !self.rev;
        } else {
            self.rev = new_sort.descends();
        }
        self.item_sort = new_sort;
        self.sort();
    }

    /// Puts the processes in the order of the sort key and direction; records
    /// that tie keep the order they had.
    pub fn sort(&mut self)
        ensures
            stable_sorted(
                old(self).process_info@,
                final(self).process_info@,
                old(self).item_sort,
                old(self).rev,
            ),
            final(self).separators == old(self).separators,
            final(self).item_sort == old(self).item_sort,
            final(self).rev == old(self).rev,
    {
        let mut list: Vec<ProcessInfo> = Vec::new();
        std::mem::swap(&mut self.process_info, &mut list);
        self.process_info = sort_processes(list, self.item_sort, self.rev);
    }
}

} // verus!
