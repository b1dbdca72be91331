//! Reading the text that system tools print: lines, columns, numbers.
//!
//! White space is the space, the tabulator, the line feed, the carriage
//! return, the vertical tabulator and the form feed.

use vstd::prelude::*;
use vstd::string::{StrSliceExecFns, StringExecFns};

verus! {

/// The characters of a text.
pub fn chars_of(text: &str) -> (r: Vec<char>)
    ensures
        r@ == text@,
{
    let mut r: Vec<char> = Vec::new();
    for c in it: text.chars()
        invariant
            it.seq() == text@,
            r@.len() == it.index(),
            forall|j: int| 0 <= j < r@.len() ==> r@[j] == it.seq()[j],
    {
        r.push(c);
    }
    assert(r@ =~= text@);
    r
}

/// Whether a character is white space.
pub open spec fn is_space(c: char) -> bool {
    c == ' ' || c == '\t' || c == '\n' || c == '\r' || c == '\u{b}' || c == '\u{c}'
}

/// Whether a character is white space.
#[verifier::when_used_as_spec(is_space)]
pub fn space(c: char) -> (r: bool)
    ensures
        r == is_space(c),
{
    c == ' ' || c == '\t' || c == '\n' || c == '\r' || c == '\u{b}' || c == '\u{c}'
}

/// The number of characters from `from` on, before `to`, that all are white
/// space, if `spaces`, or all are not.
pub open spec fn run(s: Seq<char>, from: int, to: int, spaces: bool) -> nat
    decreases to - from,
{
    if 0 <= from < to <= s.len() && is_space(s[from]) == spaces {
        1 + run(s, from + 1, to, spaces)
    } else {
        0
    }
}

/// Where the text between `from` and `to` ends once the white space at its
/// end is left off.
pub open spec fn text_end(s: Seq<char>, from: int, to: int) -> int
    decreases to - from,
{
    if 0 <= from < to <= s.len() && is_space(s[to - 1]) {
        text_end(s, from, to - 1)
    } else {
        to
    }
}

/// The place behind the run of white space, if `spaces`, or of other
/// characters, that starts at `from` and ends before `to`.
pub fn scan(chars: &Vec<char>, from: usize, to: usize, spaces: bool) -> (r: usize)
    requires
        from <= to <= chars@.len(),
    ensures
        r == from + run(chars@, from as int, to as int, spaces),
        from <= r <= to,
{
    let mut at = from;
    while at < to && space(chars[at]) == spaces
        invariant
            from <= at <= to <= chars@.len(),
            from + run(chars@, from as int, to as int, spaces) == at + run(
                chars@,
                at as int,
                to as int,
                spaces,
            ),
        decreases to - at,
    {
        at = at + 1;
    }
    at
}

/// Where the text between `from` and `to` ends once the white space at its
/// end is left off.
pub fn trim_back(chars: &Vec<char>, from: usize, to: usize) -> (r: usize)
    requires
        from <= to <= chars@.len(),
    ensures
        r == text_end(chars@, from as int, to as int),
        from <= r <= to,
{
    let mut end = to;
    while from < end && space(chars[end - 1])
        invariant
            from <= end <= to <= chars@.len(),
            text_end(chars@, from as int, to as int) == text_end(chars@, from as int, end as int),
        decreases end - from,
    {
        end = end - 1;
    }
    end
}

/// The columns of the text between `from` and `to`, at most `limit` of
/// them: a column ends at the first white space behind it, the next one
/// starts behind the run of white space, and the last one allowed takes all
/// that is left.
pub open spec fn fields(s: Seq<char>, from: int, to: int, limit: nat) -> Seq<Seq<char>>
    decreases limit,
{
    if limit == 0 {
        Seq::empty()
    } else {
        let word = from + run(s, from, to, false);
        if limit == 1 || word >= to {
            seq![s.subrange(from, to)]
        } else {
            seq![s.subrange(from, word)] + fields(s, word + run(s, word, to, true), to, (limit - 1) as nat)
        }
    }
}

/// The columns of a line, at most `limit` of them. White space around the
/// line does not count, columns are parted by runs of white space, and the
/// last column allowed takes the rest of the line, white space within it
/// included. A line of white space alone has one empty column.
pub open spec fn columns(s: Seq<char>, limit: nat) -> Seq<Seq<char>> {
    let start = run(s, 0, s.len() as int, true) as int;
    fields(s, start, text_end(s, start, s.len() as int), limit)
}

/// The texts of a list of strings.
pub open spec fn texts(list: Seq<String>) -> Seq<Seq<char>> {
    Seq::new(list.len(), |i: int| list[i]@)
}

/// The columns of a line, at most `limit` of them.
pub fn split_columns(line: &str, limit: usize) -> (r: Vec<String>)
    ensures
        texts(r@) == columns(line@, limit as nat),
{
    let chars = chars_of(line);
    let start = scan(&chars, 0, chars.len(), true);
    let end = trim_back(&chars, start, chars.len());
    let mut r: Vec<String> = Vec::new();
    let mut from = start;
    let mut left = limit;
    while left > 0
        invariant
            chars@ == line@,
            start <= from <= end <= chars@.len(),
            columns(line@, limit as nat) == texts(r@) + fields(
                line@,
                from as int,
                end as int,
                left as nat,
            ),
        decreases left,
    {
        let ghost before = texts(r@);
        let word = scan(&chars, from, end, false);
        if left == 1 || word >= end {
            r.push(String::from_str(line.substring_char(from, end)));
            proof {
                assert(texts(r@) =~= before + seq![line@.subrange(from as int, end as int)]);
                assert(fields(line@, from as int, end as int, 0) =~= Seq::<Seq<char>>::empty());
                assert(fields(line@, from as int, end as int, left as nat) =~= seq![
                    line@.subrange(from as int, end as int),
                ]);
            }
            left = 0;
        } else {
            r.push(String::from_str(line.substring_char(from, word)));
            let next = scan(&chars, word, end, true);
            proof {
                assert(texts(r@) =~= before + seq![line@.subrange(from as int, word as int)]);
                assert(fields(line@, from as int, end as int, left as nat) =~= seq![
                    line@.subrange(from as int, word as int),
                ] + fields(line@, next as int, end as int, (left - 1) as nat));
            }
            from = next;
            left = left - 1;
        }
    }
    proof {
        assert(fields(line@, from as int, end as int, 0) =~= Seq::<Seq<char>>::empty());
    }
    r
}

/// The line between `from` and `to` as it is handed out: without the
/// carriage return at its end, if a line feed follows.
pub open spec fn line_text(s: Seq<char>, from: int, to: int) -> Seq<char> {
    if from < to < s.len() && s[to - 1] == '\r' {
        s.subrange(from, to - 1)
    } else {
        s.subrange(from, to)
    }
}

/// The lines of the text from `at` on, the first of which started at
/// `start`.
pub open spec fn lines_from(s: Seq<char>, at: int, start: int) -> Seq<Seq<char>>
    decreases s.len() - at,
{
    if at < 0 || at >= s.len() {
        if start < s.len() {
            seq![line_text(s, start, s.len() as int)]
        } else {
            Seq::empty()
        }
    } else if s[at] == '\n' {
        seq![line_text(s, start, at)] + lines_from(s, at + 1, at + 1)
    } else {
        lines_from(s, at + 1, start)
    }
}

/// The lines of a text. A line ends at a line feed or at the end of the
/// text; a text that ends in a line feed has no empty line behind it.
pub open spec fn lines(s: Seq<char>) -> Seq<Seq<char>> {
    lines_from(s, 0, 0)
}

/// The lines of a text.
pub fn split_lines(text: &str) -> (r: Vec<String>)
    ensures
        texts(r@) == lines(text@),
{
    let chars = chars_of(text);
    let mut r: Vec<String> = Vec::new();
    let mut start: usize = 0;
    let mut at: usize = 0;
    while at < chars.len()
        invariant
            chars@ == text@,
            start <= at <= chars@.len(),
            lines(text@) == texts(r@) + lines_from(text@, at as int, start as int),
        decreases chars@.len() - at,
    {
        let ghost before = texts(r@);
        if chars[at] == '\n' {
            let stop = if start < at && chars[at - 1] == '\r' {
                at - 1
            } else {
                at
            };
            r.push(String::from_str(text.substring_char(start, stop)));
            proof {
                assert(texts(r@) =~= before + seq![line_text(text@, start as int, at as int)]);
            }
            start = at + 1;
        }
        at = at + 1;
    }
    if start < chars.len() {
        let ghost before = texts(r@);
        r.push(String::from_str(text.substring_char(start, chars.len())));
        proof {
            assert(texts(r@) =~= before + seq![
                line_text(text@, start as int, text@.len() as int),
            ]);
        }
    } else {
        proof {
            assert(texts(r@) + Seq::<Seq<char>>::empty() =~= texts(r@));
        }
    }
    r
}

/// Whether a character is a decimal digit.
pub open spec fn is_digit(c: char) -> bool {
    48 <= c as u32 <= 57
}

/// The value of a decimal digit.
pub open spec fn digit_of(c: char) -> nat {
    (c as u32 - 48) as nat
}

/// Whether a text consists of decimal digits alone.
pub open spec fn all_digits(s: Seq<char>) -> bool {
    forall|i: int| 0 <= i < s.len() ==> is_digit(#[trigger] s[i])
}

/// The number that the digits of a text spell; nothing for the empty text.
pub open spec fn value_of(s: Seq<char>) -> nat
    decreases s.len(),
{
    if s.len() == 0 {
        0
    } else {
        value_of(s.drop_last()) * 10 + digit_of(s.last())
    }
}

/// The number that a text spells, if it consists of one digit or more and
/// nothing else.
pub open spec fn number(s: Seq<char>) -> Option<nat> {
    if s.len() > 0 && all_digits(s) {
        Some(value_of(s))
    } else {
        None
    }
}

/// The digits at the start of a text spell no more than all of them do.
pub proof fn lemma_value_of_prefix(s: Seq<char>, k: int)
    requires
        0 <= k <= s.len(),
    ensures
        value_of(s.take(k)) <= value_of(s),
    decreases s.len() - k,
{
    if k < s.len() {
        lemma_value_of_prefix(s, k + 1);
        assert(s.take(k + 1).drop_last() =~= s.take(k));
    } else {
        assert(s.take(k) =~= s);
    }
}

/// The number that the digits between `from` and `to` spell, if there are
/// digits only and the number fits.
pub fn read_digits(chars: &Vec<char>, from: usize, to: usize) -> (r: Option<u64>)
    requires
        from <= to <= chars@.len(),
    ensures
        r == (if all_digits(chars@.subrange(from as int, to as int)) && value_of(
            chars@.subrange(from as int, to as int),
        ) <= u64::MAX {
            Some(value_of(chars@.subrange(from as int, to as int)) as u64)
        } else {
            None
        }),
{
    let ghost text = chars@.subrange(from as int, to as int);
    let mut value: u64 = 0;
    let mut at = from;
    while at < to
        invariant
            from <= at <= to <= chars@.len(),
            text == chars@.subrange(from as int, to as int),
            all_digits(text.take(at - from)),
            value == value_of(text.take(at - from)),
        decreases to - at,
    {
        let c = chars[at];
        proof {
            assert(text[at - from] == c);
            assert(text.take(at - from + 1).drop_last() =~= text.take(at - from));
            assert(text.take(at - from + 1).last() == c);
            lemma_value_of_prefix(text, at - from + 1);
        }
        if !(c as u32 >= 48 && c as u32 <= 57) {
            return None;
        }
        let d = (c as u32 - 48) as u64;
        if value > (u64::MAX - d) / 10 {
            return None;
        }
        value = value * 10 + d;
        at = at + 1;
        proof {
            assert forall|i: int| 0 <= i < text.take(at - from).len() implies is_digit(
                #[trigger] text.take(at - from)[i],
            ) by {
                if i < at - from - 1 {
                    assert(text.take(at - from - 1)[i] == text[i]);
                }
            }
        }
    }
    proof {
        assert(text.take(to - from) =~= text);
    }
    Some(value)
}

/// The number that a text spells, if it spells one and the number fits.
pub open spec fn number_u64(s: Seq<char>) -> Option<u64> {
    match number(s) {
        Some(v) => if v <= u64::MAX {
            Some(v as u64)
        } else {
            None
        },
        None => None,
    }
}

/// The number that a text spells, if it consists of one digit or more and
/// nothing else, and the number fits.
pub fn parse_number(text: &str) -> (r: Option<u64>)
    ensures
        r == number_u64(text@),
{
    let chars = chars_of(text);
    if chars.len() == 0 {
        return None;
    }
    proof {
        assert(chars@.subrange(0, chars@.len() as int) =~= text@);
    }
    read_digits(&chars, 0, chars.len())
}

/// Whether a character parts the whole of a decimal number from its
/// fraction: the point and the comma do.
pub open spec fn is_point(c: char) -> bool {
    c == '.' || c == ','
}

/// The place of the first point from `from` on, or the end of the text.
pub open spec fn point_at(s: Seq<char>, from: int) -> int
    decreases s.len() - from,
{
    if from < 0 || from >= s.len() {
        s.len() as int
    } else if is_point(s[from]) {
        from
    } else {
        point_at(s, from + 1)
    }
}

/// The first three digits of a fraction, in thousandths.
pub open spec fn thousandths(fraction: Seq<char>) -> nat {
    (if fraction.len() > 0 {
        digit_of(fraction[0]) * 100
    } else {
        0
    }) + (if fraction.len() > 1 {
        digit_of(fraction[1]) * 10
    } else {
        0
    }) + (if fraction.len() > 2 {
        digit_of(fraction[2])
    } else {
        0
    })
}

/// The fraction of a decimal number: what stands behind its first point.
pub open spec fn fraction_of(s: Seq<char>) -> Seq<char> {
    if point_at(s, 0) < s.len() {
        s.subrange(point_at(s, 0) + 1, s.len() as int)
    } else {
        Seq::empty()
    }
}

/// The number that a text spells, in thousandths: one digit or more, then,
/// if anything, a point or a comma and any number of digits, of which those
/// behind the third do not count.
pub open spec fn decimal(s: Seq<char>) -> Option<nat> {
    let whole = s.subrange(0, point_at(s, 0));
    if whole.len() > 0 && all_digits(whole) && all_digits(fraction_of(s)) {
        Some(value_of(whole) * 1000 + thousandths(fraction_of(s)))
    } else {
        None
    }
}

/// Whether the characters between `from` and `to` are digits alone.
pub fn only_digits(chars: &Vec<char>, from: usize, to: usize) -> (r: bool)
    requires
        from <= to <= chars@.len(),
    ensures
        r == all_digits(chars@.subrange(from as int, to as int)),
{
    let ghost text = chars@.subrange(from as int, to as int);
    let mut at = from;
    while at < to
        invariant
            from <= at <= to <= chars@.len(),
            text == chars@.subrange(from as int, to as int),
            forall|i: int| 0 <= i < at - from ==> is_digit(#[trigger] text[i]),
        decreases to - at,
    {
        let c = chars[at];
        if !(c as u32 >= 48 && c as u32 <= 57) {
            proof {
                assert(text[at - from] == c);
            }
            return false;
        }
        proof {
            assert(text[at - from] == c);
        }
        at = at + 1;
    }
    true
}

/// The number that a text spells, in thousandths, if it spells one and the
/// number fits.
pub open spec fn decimal_u32(s: Seq<char>) -> Option<u32> {
    match decimal(s) {
        Some(v) => if v <= u32::MAX {
            Some(v as u32)
        } else {
            None
        },
        None => None,
    }
}

/// The number that a text spells, in thousandths, if it spells one and the
/// number fits.
pub fn parse_decimal(text: &str) -> (r: Option<u32>)
    ensures
        r == decimal_u32(text@),
{
    let chars = chars_of(text);
    let n = chars.len();
    let mut point: usize = 0;
    while point < n && !(chars[point] == '.' || chars[point] == ',')
        invariant
            chars@ == text@,
            n == chars@.len(),
            point <= n,
            point_at(text@, 0) == point_at(text@, point as int),
        decreases n - point,
    {
        point = point + 1;
    }
    if point == 0 {
        return None;
    }
    let ghost whole = text@.subrange(0, point as int);
    let ghost fraction = fraction_of(text@);
    let start = if point < n {
        point + 1
    } else {
        n
    };
    proof {
        assert(chars@.subrange(start as int, n as int) =~= fraction);
    }
    if !only_digits(&chars, start, n) {
        return None;
    }
    let digits = read_digits(&chars, 0, point);
    proof {
        if fraction.len() > 0 {
            assert(fraction[0] == chars@[start + 0] && is_digit(fraction[0]));
        }
        if fraction.len() > 1 {
            assert(fraction[1] == chars@[start + 1] && is_digit(fraction[1]));
        }
        if fraction.len() > 2 {
            assert(fraction[2] == chars@[start + 2] && is_digit(fraction[2]));
        }
    }
    let first: u64 = if start < n {
        (chars[start] as u32 - 48) as u64
    } else {
        0
    };
    let second: u64 = if n - start > 1 {
        (chars[start + 1] as u32 - 48) as u64
    } else {
        0
    };
    let third: u64 = if n - start > 2 {
        (chars[start + 2] as u32 - 48) as u64
    } else {
        0
    };
    let part = first * 100 + second * 10 + third;
    match digits {
        Some(value) => {
            if value > (u32::MAX as u64 - part) / 1000 {
                None
            } else {
                Some((value * 1000 + part) as u32)
            }
        },
        None => None,
    }
}

/// Whether `pattern` stands in the text at the place `at`.
pub open spec fn occurs_at(s: Seq<char>, pattern: Seq<char>, at: int) -> bool {
    &&& 0 <= at
    &&& at + pattern.len() <= s.len()
    &&& s.subrange(at, at + pattern.len()) == pattern
}

/// The first place from `from` on, before `to`, at which `pattern` stands
/// without reaching beyond `to`. The empty pattern stands nowhere.
pub open spec fn find_in(s: Seq<char>, pattern: Seq<char>, from: int, to: int) -> Option<int>
    decreases to - from,
{
    if from < 0 || to > s.len() || pattern.len() == 0 || from + pattern.len() > to {
        None
    } else if occurs_at(s, pattern, from) {
        Some(from)
    } else {
        find_in(s, pattern, from + 1, to)
    }
}

/// Whether `pattern` stands in the text at the place `at`.
pub fn matches_at(chars: &Vec<char>, pattern: &Vec<char>, at: usize) -> (r: bool)
    ensures
        r == occurs_at(chars@, pattern@, at as int),
{
    if pattern.len() > chars.len() || at > chars.len() - pattern.len() {
        return false;
    }
    let mut i: usize = 0;
    while i < pattern.len()
        invariant
            at + pattern.len() <= chars.len(),
            i <= pattern@.len(),
            forall|k: int| 0 <= k < i ==> chars@[at + k] == pattern@[k],
        decreases pattern@.len() - i,
    {
        if chars[at + i] != pattern[i] {
            proof {
                assert(chars@.subrange(at as int, at + pattern@.len())[i as int] == chars@[at + i]);
            }
            return false;
        }
        i = i + 1;
    }
    proof {
        assert(chars@.subrange(at as int, at + pattern@.len()) =~= pattern@);
    }
    true
}

/// The first place from `from` on, before `to`, at which `pattern` stands
/// without reaching beyond `to`.
pub fn find_text(chars: &Vec<char>, pattern: &Vec<char>, from: usize, to: usize) -> (r: Option<
    usize,
>)
    requires
        to <= chars@.len(),
    ensures
        r.is_some() == find_in(chars@, pattern@, from as int, to as int).is_some(),
        r matches Some(at) ==> find_in(chars@, pattern@, from as int, to as int) == Some(
            at as int,
        ) && from <= at && at + pattern@.len() <= to,
{
    if pattern.len() == 0 || pattern.len() > to || from > to - pattern.len() {
        return None;
    }
    let last = to - pattern.len();
    let mut at = from;
    while at <= last
        invariant
            to <= chars@.len(),
            pattern@.len() > 0,
            last == to - pattern@.len(),
            from <= at <= last + 1,
            find_in(chars@, pattern@, from as int, to as int) == find_in(
                chars@,
                pattern@,
                at as int,
                to as int,
            ),
        decreases last + 1 - at,
    {
        if matches_at(chars, pattern, at) {
            return Some(at);
        }
        at = at + 1;
    }
    None
}

/// The number of characters from `from` on, before `to`, that come before
/// the next `mark`.
pub open spec fn until(s: Seq<char>, from: int, to: int, mark: char) -> nat
    decreases to - from,
{
    if 0 <= from < to <= s.len() && s[from] != mark {
        1 + until(s, from + 1, to, mark)
    } else {
        0
    }
}

/// The place of the next `mark` from `from` on, or `to` if there is none
/// before it.
pub fn scan_until(chars: &Vec<char>, from: usize, to: usize, mark: char) -> (r: usize)
    requires
        from <= to <= chars@.len(),
    ensures
        r == from + until(chars@, from as int, to as int, mark),
        from <= r <= to,
{
    let mut at = from;
    while at < to && chars[at] != mark
        invariant
            from <= at <= to <= chars@.len(),
            from + until(chars@, from as int, to as int, mark) == at + until(
                chars@,
                at as int,
                to as int,
                mark,
            ),
        decreases to - at,
    {
        at = at + 1;
    }
    at
}

/// The digit that stands for a number below ten.
pub open spec fn digit_char(d: nat) -> char {
    if d == 0 {
        '0'
    } else if d == 1 {
        '1'
    } else if d == 2 {
        '2'
    } else if d == 3 {
        '3'
    } else if d == 4 {
        '4'
    } else if d == 5 {
        '5'
    } else if d == 6 {
        '6'
    } else if d == 7 {
        '7'
    } else if d == 8 {
        '8'
    } else {
        '9'
    }
}

/// A number in decimal digits, without leading zeros.
pub open spec fn decimal_text(n: nat) -> Seq<char>
    decreases n,
{
    if n < 10 {
        seq![digit_char(n)]
    } else {
        decimal_text(n / 10).push(digit_char(n % 10))
    }
}

/// The digit that stands for a number below ten, as a text.
pub fn digit_text(d: u64) -> (r: &'static str)
    requires
        d < 10,
    ensures
        r@ == seq![digit_char(d as nat)],
{
    proof {
        reveal_strlit("0");
        reveal_strlit("1");
        reveal_strlit("2");
        reveal_strlit("3");
        reveal_strlit("4");
        reveal_strlit("5");
        reveal_strlit("6");
        reveal_strlit("7");
        reveal_strlit("8");
        reveal_strlit("9");
    }
    let r = if d == 0 {
        "0"
    } else if d == 1 {
        "1"
    } else if d == 2 {
        "2"
    } else if d == 3 {
        "3"
    } else if d == 4 {
        "4"
    } else if d == 5 {
        "5"
    } else if d == 6 {
        "6"
    } else if d == 7 {
        "7"
    } else if d == 8 {
        "8"
    } else {
        "9"
    };
    assert(r@ =~= seq![digit_char(d as nat)]);
    r
}

/// A number in decimal digits, without leading zeros.
pub fn number_text(n: u64) -> (r: String)
    ensures
        r@ == decimal_text(n as nat),
    decreases n,
{
    if n < 10 {
        String::from_str(digit_text(n))
    } else {
        let mut r = number_text(n / 10);
        r.append(digit_text(n % 10));
        assert(r@ =~= decimal_text(n as nat));
        r
    }
}

/// A text without the white space around it.
pub open spec fn trimmed(s: Seq<char>) -> Seq<char> {
    let start = run(s, 0, s.len() as int, true) as int;
    s.subrange(start, text_end(s, start, s.len() as int))
}

/// A text without the white space around it.
pub fn trim_text(text: &str) -> (r: String)
    ensures
        r@ == trimmed(text@),
{
    let chars = chars_of(text);
    let start = scan(&chars, 0, chars.len(), true);
    let end = trim_back(&chars, start, chars.len());
    String::from_str(text.substring_char(start, end))
}

/// Whether `pattern` stands somewhere in the text.
pub open spec fn holds(s: Seq<char>, pattern: Seq<char>) -> bool {
    find_in(s, pattern, 0, s.len() as int) is Some
}

/// Whether `pattern` stands somewhere in the text.
pub fn contains_text(text: &str, pattern: &str) -> (r: bool)
    ensures
        r == holds(text@, pattern@),
{
    let chars = chars_of(text);
    let wanted = chars_of(pattern);
    find_text(&chars, &wanted, 0, chars.len()).is_some()
}

/// Whether the text starts with `pattern`.
pub open spec fn starts_with(s: Seq<char>, pattern: Seq<char>) -> bool {
    occurs_at(s, pattern, 0)
}

/// Whether the text starts with `pattern`.
pub fn has_prefix(text: &str, pattern: &str) -> (r: bool)
    ensures
        r == starts_with(text@, pattern@),
{
    let chars = chars_of(text);
    let wanted = chars_of(pattern);
    matches_at(&chars, &wanted, 0)
}

/// The parts of the text between `from` and `to` that `mark` separates, at
/// most `limit` of them; the last part allowed takes all that is left.
pub open spec fn parts(s: Seq<char>, from: int, to: int, mark: char, limit: nat) -> Seq<
    Seq<char>,
>
    decreases limit,
{
    if limit == 0 {
        Seq::empty()
    } else {
        let stop = from + until(s, from, to, mark);
        if limit == 1 || stop >= to {
            seq![s.subrange(from, to)]
        } else {
            seq![s.subrange(from, stop)] + parts(s, stop + 1, to, mark, (limit - 1) as nat)
        }
    }
}

/// The parts of a text that `mark` separates, at most `limit` of them.
pub fn split_on(text: &str, mark: char, limit: usize) -> (r: Vec<String>)
    ensures
        texts(r@) == parts(text@, 0, text@.len() as int, mark, limit as nat),
{
    let chars = chars_of(text);
    let end = chars.len();
    let mut r: Vec<String> = Vec::new();
    let mut from: usize = 0;
    let mut left = limit;
    while left > 0
        invariant
            chars@ == text@,
            end == chars@.len(),
            from <= end,
            parts(text@, 0, text@.len() as int, mark, limit as nat) == texts(r@) + parts(
                text@,
                from as int,
                end as int,
                mark,
                left as nat,
            ),
        decreases left,
    {
        let ghost before = texts(r@);
        let stop = scan_until(&chars, from, end, mark);
        if left == 1 || stop >= end {
            r.push(String::from_str(text.substring_char(from, end)));
            proof {
                assert(texts(r@) =~= before + seq![text@.subrange(from as int, end as int)]);
                assert(parts(text@, from as int, end as int, mark, 0) =~= Seq::<
                    Seq<char>,
                >::empty());
                assert(parts(text@, from as int, end as int, mark, left as nat) =~= seq![
                    text@.subrange(from as int, end as int),
                ]);
            }
            left = 0;
        } else {
            r.push(String::from_str(text.substring_char(from, stop)));
            proof {
                assert(texts(r@) =~= before + seq![text@.subrange(from as int, stop as int)]);
                assert(parts(text@, from as int, end as int, mark, left as nat) =~= seq![
                    text@.subrange(from as int, stop as int),
                ] + parts(text@, stop + 1, end as int, mark, (left - 1) as nat));
            }
            from = stop + 1;
            left = left - 1;
        }
    }
    proof {
        assert(parts(text@, from as int, end as int, mark, 0) =~= Seq::<Seq<char>>::empty());
    }
    r
}

/// The start of a text up to its first `mark`, or all of it.
pub open spec fn before_mark(s: Seq<char>, mark: char) -> Seq<char> {
    s.subrange(0, until(s, 0, s.len() as int, mark) as int)
}

/// The start of a text up to its first `mark`, or all of it.
pub fn take_until(text: &str, mark: char) -> (r: String)
    ensures
        r@ == before_mark(text@, mark),
{
    let chars = chars_of(text);
    let stop = scan_until(&chars, 0, chars.len(), mark);
    String::from_str(text.substring_char(0, stop))
}

} // verus!
