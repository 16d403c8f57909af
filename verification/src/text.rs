//! Text that commands, names and paths are put together from.

use vstd::prelude::*;

verus! {

/// The character of a decimal digit.
pub open spec fn digit(d: int) -> char {
    (48 + d) as char
}

/// A natural number in decimal, without leading zeros.
pub open spec fn decimal(n: nat) -> Seq<char>
    decreases n,
{
    if n < 10 {
        seq![digit(n as int)]
    } else {
        decimal(n / 10).push(digit((n % 10) as int))
    }
}

/// An integer in decimal, with a leading minus sign where it is negative.
pub open spec fn signed_decimal(i: int) -> Seq<char> {
    if i < 0 {
        seq!['-'] + decimal((-i) as nat)
    } else {
        decimal(i as nat)
    }
}

/// The path of `leaf` inside the directory `base`, with one separator between
/// them. An empty `base` stands for the current directory.
pub open spec fn path_join(base: Seq<char>, leaf: Seq<char>) -> Seq<char> {
    if base.len() == 0 || base.last() == '/' {
        base + leaf
    } else {
        base + seq!['/'] + leaf
    }
}

/// Whether `c` has the Unicode property White_Space.
pub open spec fn is_white_space(c: char) -> bool {
    let v = c as int;
    ||| 0x9 <= v <= 0xd
    ||| v == 0x20
    ||| v == 0x85
    ||| v == 0xa0
    ||| v == 0x1680
    ||| 0x2000 <= v <= 0x200a
    ||| v == 0x2028
    ||| v == 0x2029
    ||| v == 0x202f
    ||| v == 0x205f
    ||| v == 0x3000
}

/// `s` without its leading white space.
pub open spec fn trimmed_start(s: Seq<char>) -> Seq<char>
    decreases s.len(),
{
    if s.len() > 0 && is_white_space(s[0]) {
        trimmed_start(s.drop_first())
    } else {
        s
    }
}

/// `s` without its trailing white space.
pub open spec fn trimmed_end(s: Seq<char>) -> Seq<char>
    decreases s.len(),
{
    if s.len() > 0 && is_white_space(s.last()) {
        trimmed_end(s.drop_last())
    } else {
        s
    }
}

/// `s` without its leading and trailing white space.
pub open spec fn trimmed(s: Seq<char>) -> Seq<char> {
    trimmed_end(trimmed_start(s))
}

proof fn trimmed_start_is_suffix(s: Seq<char>, n: int)
    requires
        0 <= n <= s.len(),
        forall|j: int| 0 <= j < n ==> is_white_space(#[trigger] s[j]),
        n < s.len() ==> !is_white_space(s[n]),
    ensures
        trimmed_start(s) == s.skip(n),
    decreases s.len(),
{
    if n > 0 {
        assert(is_white_space(s[0]));
        let rest = s.drop_first();
        assert forall|j: int| 0 <= j < n - 1 implies is_white_space(#[trigger] rest[j]) by {
            assert(rest[j] == s[j + 1]);
        }
        trimmed_start_is_suffix(rest, n - 1);
        assert(rest.skip(n - 1) =~= s.skip(n));
    } else {
        assert(s.skip(0) =~= s);
    }
}

proof fn trimmed_end_is_prefix(s: Seq<char>, n: int)
    requires
        0 <= n <= s.len(),
        forall|j: int| n <= j < s.len() ==> is_white_space(#[trigger] s[j]),
        n > 0 ==> !is_white_space(s[n - 1]),
    ensures
        trimmed_end(s) == s.take(n),
    decreases s.len(),
{
    if n < s.len() {
        assert(is_white_space(s[s.len() - 1]));
        let rest = s.drop_last();
        assert forall|j: int| n <= j < rest.len() implies is_white_space(#[trigger] rest[j]) by {
            assert(rest[j] == s[j]);
        }
        trimmed_end_is_prefix(rest, n);
        assert(rest.take(n) =~= s.take(n));
    } else {
        assert(s.take(n) =~= s);
    }
}

fn digit_text(d: u8) -> (s: &'static str)
    requires
        d < 10,
    ensures
        s@ == seq![digit(d as int)],
{
    proof {
        reveal_strlit("0");
        reveal_strlit("1");
        reveal_strlit("2");
        reveal_strlit("3");
        reveal_strlit("4");
        reveal_strlit("5");
        reveal_strlit("6");
        reveal_strlit("7");
        reveal_strlit("8");
        reveal_strlit("9");
    }
    match d {
        0 => "0",
        1 => "1",
        2 => "2",
        3 => "3",
        4 => "4",
        5 => "5",
        6 => "6",
        7 => "7",
        8 => "8",
        _ => "9",
    }
}

/// Writes a number in decimal.
pub fn decimal_text(n: u64) -> (s: String)
    ensures
        s@ == decimal(n as nat),
    decreases n,
{
    if n < 10 {
        digit_text(n as u8).to_string()
    } else {
        let head = decimal_text(n / 10);
        let text = head.concat(digit_text((n % 10) as u8));
        assert(text@ =~= decimal((n / 10) as nat).push(digit((n % 10) as int)));
        text
    }
}

/// Writes a signed number in decimal.
pub fn signed_decimal_text(i: i32) -> (s: String)
    ensures
        s@ == signed_decimal(i as int),
{
    if i < 0 {
        let magnitude: u64 = (-(i as i64)) as u64;
        proof {
            reveal_strlit("-");
        }
        let text = "-".to_string().concat(decimal_text(magnitude).as_str());
        assert(text@ =~= seq!['-'] + decimal((-i) as nat));
        text
    } else {
        decimal_text(i as u64)
    }
}

/// Joins a directory and the name of something in it.
pub fn join_path(base: &str, leaf: &str) -> (path: String)
    ensures
        path@ == path_join(base@, leaf@),
{
    let len = base.unicode_len();
    if len == 0 || base.get_char(len - 1) == '/' {
        base.to_string().concat(leaf)
    } else {
        proof {
            reveal_strlit("/");
            assert("/"@ =~= seq!['/']);
        }
        base.to_string().concat("/").concat(leaf)
    }
}

fn white_space(c: char) -> (b: bool)
    ensures
        b == is_white_space(c),
{
    let v = c as u32;
    (0x9 <= v && v <= 0xd) || v == 0x20 || v == 0x85 || v == 0xa0 || v == 0x1680 || (0x2000 <= v
        && v <= 0x200a) || v == 0x2028 || v == 0x2029 || v == 0x202f || v == 0x205f || v == 0x3000
}

/// Drops leading and trailing white space.
pub fn trim(s: &str) -> (t: String)
    ensures
        t@ == trimmed(s@),
{
    let len: usize = s.unicode_len();
    let mut start: usize = 0;
    while start < len && white_space(s.get_char(start))
        invariant
            len == s@.len(),
            start <= len,
            forall|j: int| 0 <= j < start ==> is_white_space(#[trigger] s@[j]),
        decreases len - start,
    {
        start = start + 1;
    }
    let mut end: usize = len;
    while start < end && white_space(s.get_char(end - 1))
        invariant
            len == s@.len(),
            start <= end <= len,
            forall|j: int| end <= j < len ==> is_white_space(#[trigger] s@[j]),
        decreases end,
    {
        end = end - 1;
    }
    proof {
        trimmed_start_is_suffix(s@, start as int);
        let rest = s@.skip(start as int);
        assert forall|j: int| end - start <= j < rest.len() implies is_white_space(
            #[trigger] rest[j],
        ) by {
            assert(rest[j] == s@[j + start]);
        }
        trimmed_end_is_prefix(rest, end - start);
        assert(rest.take(end - start) =~= s@.subrange(start as int, end as int));
    }
    s.substring_char(start, end).to_string()
}

/// Trimming twice is trimming once.
pub proof fn trimming_is_idempotent(s: Seq<char>)
    ensures
        trimmed(trimmed(s)) == trimmed(s),
{
    let a = trimmed_start(s);
    let b = trimmed_end(a);
    trimmed_start_head(s);
    trimmed_end_tail(a);
    assert(trimmed_start(b) == b) by {
        if b.len() > 0 {
            assert(b[0] == a[0]);
        }
    }
}

proof fn trimmed_start_head(s: Seq<char>)
    ensures
        trimmed_start(s).len() > 0 ==> !is_white_space(trimmed_start(s)[0]),
    decreases s.len(),
{
    if s.len() > 0 && is_white_space(s[0]) {
        trimmed_start_head(s.drop_first());
    }
}

proof fn trimmed_end_tail(s: Seq<char>)
    ensures
        trimmed_end(s).len() <= s.len(),
        trimmed_end(s).len() > 0 ==> !is_white_space(trimmed_end(s).last()),
        trimmed_end(s).len() > 0 ==> trimmed_end(s)[0] == s[0],
        trimmed_end(trimmed_end(s)) == trimmed_end(s),
    decreases s.len(),
{
    if s.len() > 0 && is_white_space(s.last()) {
        trimmed_end_tail(s.drop_last());
    }
}

/// `line` without a carriage return at its end.
pub open spec fn without_carriage_return(line: Seq<char>) -> Seq<char> {
    if line.len() > 0 && line.last() == '\r' {
        line.drop_last()
    } else {
        line
    }
}

/// The lines of `s`, from the place `start` of one on, where `end` is a place
/// up to which no line ends.
pub open spec fn lines_from(s: Seq<char>, start: int, end: int) -> Seq<Seq<char>>
    decreases s.len() - end,
{
    if end >= s.len() {
        if start >= s.len() {
            Seq::empty()
        } else {
            seq![s.subrange(start, s.len() as int)]
        }
    } else if s[end] == '\n' {
        seq![without_carriage_return(s.subrange(start, end))] + lines_from(s, end + 1, end + 1)
    } else {
        lines_from(s, start, end + 1)
    }
}

/// The lines of `s`. A line ends at a line feed, or at a carriage return and a
/// line feed, neither of which belongs to it; the last line may go without.
pub open spec fn lines_spec(s: Seq<char>) -> Seq<Seq<char>> {
    lines_from(s, 0, 0)
}

/// Splits a text into its lines.
pub fn lines(s: &str) -> (all: Vec<String>)
    ensures
        all@.map_values(|l: String| l@) == lines_spec(s@),
{
    let count: usize = s.unicode_len();
    let mut all: Vec<String> = Vec::new();
    let mut start: usize = 0;
    let mut end: usize = 0;
    assert(all@.map_values(|l: String| l@) + lines_from(s@, 0, 0) =~= lines_spec(s@));
    while end < count
        invariant
            count == s@.len(),
            start <= end <= count,
            all@.map_values(|l: String| l@) + lines_from(s@, start as int, end as int)
                == lines_spec(s@),
        decreases count - end,
    {
        if s.get_char(end) == '\n' {
            let ghost found = all@.map_values(|l: String| l@);
            let stop: usize = if end > start && s.get_char(end - 1) == '\r' {
                end - 1
            } else {
                end
            };
            let line = s.substring_char(start, stop).to_string();
            all.push(line);
            proof {
                let whole = s@.subrange(start as int, end as int);
                assert(line@ =~= without_carriage_return(whole));
                assert(all@.map_values(|l: String| l@) =~= found.push(line@));
                assert(found.push(line@) + lines_from(s@, end + 1, end + 1) =~= found + lines_from(
                    s@,
                    start as int,
                    end as int,
                ));
            }
            start = end + 1;
        }
        end = end + 1;
    }
    if start < count {
        let ghost found = all@.map_values(|l: String| l@);
        all.push(s.substring_char(start, count).to_string());
        assert(all@.map_values(|l: String| l@) =~= found + lines_from(
            s@,
            start as int,
            end as int,
        ));
    } else {
        assert(all@.map_values(|l: String| l@) =~= lines_spec(s@));
    }
    all
}

proof fn no_line_feed_from(s: Seq<char>, start: int, end: int, k: int)
    requires
        0 <= start <= end <= s.len(),
        forall|i: int| start <= i < end ==> s[i] != '\n',
        0 <= k < lines_from(s, start, end).len(),
    ensures
        !lines_from(s, start, end)[k].contains('\n'),
    decreases s.len() - end,
{
    if end < s.len() && s[end] != '\n' {
        no_line_feed_from(s, start, end + 1, k);
    } else if k > 0 {
        no_line_feed_from(s, end + 1, end + 1, k - 1);
    } else {
        let line = lines_from(s, start, end)[0];
        assert forall|i: int| 0 <= i < line.len() implies line[i] != '\n' by {
            assert(line[i] == s[start + i]);
        }
    }
}

/// No line holds a line feed.
pub proof fn lines_hold_no_line_feed(s: Seq<char>, k: int)
    requires
        0 <= k < lines_spec(s).len(),
    ensures
        !lines_spec(s)[k].contains('\n'),
{
    no_line_feed_from(s, 0, 0, k);
}

/// The number that a text of decimal digits stands for.
pub open spec fn number(s: Seq<char>) -> int
    decreases s.len(),
{
    if s.len() == 0 {
        0
    } else {
        10 * number(s.drop_last()) + (s.last() as int - 48)
    }
}

/// A number that is written in decimal reads as that number, has only digits, and has no
/// leading zero unless it is zero.
pub proof fn decimals_read_as_their_number(n: nat)
    ensures
        number(decimal(n)) == n,
        decimal(n).len() >= 1,
        forall|i: int| 0 <= i < decimal(n).len() ==> 48 <= (#[trigger] decimal(n)[i]) as int <= 57,
        n > 0 ==> decimal(n)[0] != '0',
        n == 0 ==> decimal(n).len() == 1,
    decreases n,
{
    if n < 10 {
        let s = decimal(n);
        assert(s.drop_last() =~= Seq::<char>::empty());
        assert(number(s.drop_last()) == 0);
        assert(s.last() as int == 48 + n);
    } else {
        decimals_read_as_their_number(n / 10);
        let s = decimal(n);
        assert(s.drop_last() =~= decimal(n / 10));
        assert(s.last() as int == 48 + n % 10);
    }
}

/// Different numbers are written differently.
pub proof fn decimals_tell_numbers_apart(m: nat, n: nat)
    requires
        decimal(m) == decimal(n),
    ensures
        m == n,
{
    decimals_read_as_their_number(m);
    decimals_read_as_their_number(n);
}

/// A negative number is written as a minus sign and the number without its sign; any other
/// is written without one.
pub proof fn signs_are_written_first(i: int)
    ensures
        i < 0 ==> signed_decimal(i)[0] == '-' && number(signed_decimal(i).skip(1)) == -i,
        i >= 0 ==> number(signed_decimal(i)) == i && signed_decimal(i)[0] != '-',
{
    if i < 0 {
        decimals_read_as_their_number((-i) as nat);
        assert(signed_decimal(i).skip(1) =~= decimal((-i) as nat));
    } else {
        decimals_read_as_their_number(i as nat);
        assert(48 <= decimal(i as nat)[0] as int);
    }
}

/// A joined path begins with the directory and ends with the name in it. Exactly one
/// separator is between them: the one that the directory ends with, or one that is put there.
/// Without a directory the name stands alone.
pub proof fn joined_paths_have_one_separator(base: Seq<char>, leaf: Seq<char>)
    ensures
        ({
            let path = path_join(base, leaf);
            let start = path.len() - leaf.len();
            &&& path.take(base.len() as int) == base
            &&& path.skip(start) == leaf
            &&& base.len() > 0 ==> path[start - 1] == '/'
            &&& base.len() == 0 || base.last() == '/' ==> path.len() == base.len() + leaf.len()
            &&& base.len() > 0 && base.last() != '/' ==> path.len() == base.len() + 1 + leaf.len()
        }),
{
    let path = path_join(base, leaf);
    let start = path.len() - leaf.len();
    assert(path.take(base.len() as int) =~= base);
    assert(path.skip(start) =~= leaf);
}

/// Spaces, tabs and line ends are white space; no letter, digit or sign of ASCII is.
pub proof fn ascii_white_space_is_known(c: char)
    requires
        c as int <= 0x7f,
    ensures
        is_white_space(c) <==> c == ' ' || 0x9 <= c as int <= 0xd,
{
}

/// Beyond ASCII, the white space is the next line, the no-break spaces, the spaces of fixed
/// widths, the two separators and the spaces of other scripts.
pub proof fn other_white_space_is_known(c: char)
    requires
        c as int > 0x7f,
    ensures
        is_white_space(c) <==> c as int == 0x85 || c as int == 0xa0 || c as int == 0x1680 || (
        0x2000 <= c as int && c as int <= 0x200a) || c as int == 0x2028 || c as int == 0x2029 || c as int
            == 0x202f || c as int == 0x205f || c as int == 0x3000,
{
}

proof fn leading_white_space(s: Seq<char>) -> (n: int)
    ensures
        0 <= n <= s.len(),
        forall|j: int| 0 <= j < n ==> is_white_space(#[trigger] s[j]),
        n < s.len() ==> !is_white_space(s[n]),
        trimmed_start(s) == s.skip(n),
    decreases s.len(),
{
    if s.len() > 0 && is_white_space(s[0]) {
        let rest = s.drop_first();
        let n = leading_white_space(rest);
        assert forall|j: int| 0 <= j < n + 1 implies is_white_space(#[trigger] s[j]) by {
            if j > 0 {
                assert(rest[j - 1] == s[j]);
            }
        }
        assert(rest.skip(n) =~= s.skip(n + 1));
        n + 1
    } else {
        assert(s.skip(0) =~= s);
        0
    }
}

proof fn trailing_white_space(s: Seq<char>) -> (n: int)
    ensures
        0 <= n <= s.len(),
        forall|j: int| n <= j < s.len() ==> is_white_space(#[trigger] s[j]),
        n > 0 ==> !is_white_space(s[n - 1]),
        trimmed_end(s) == s.take(n),
    decreases s.len(),
{
    if s.len() > 0 && is_white_space(s.last()) {
        let rest = s.drop_last();
        let n = trailing_white_space(rest);
        assert forall|j: int| n <= j < s.len() implies is_white_space(#[trigger] s[j]) by {
            if j < rest.len() {
                assert(rest[j] == s[j]);
            }
        }
        assert(rest.take(n) =~= s.take(n));
        n
    } else {
        assert(s.take(s.len() as int) =~= s);
        s.len() as int
    }
}

/// Trimming takes away the white space at both ends, all of it, and nothing else: what is
/// left is in one piece in the text, has nothing but white space around it, and neither
/// begins nor ends with white space.
pub proof fn trimming_takes_only_white_space(s: Seq<char>)
    ensures
        exists|a: int, b: int|
            #![trigger s.subrange(a, b)]
            0 <= a <= b <= s.len() && trimmed(s) == s.subrange(a, b) && (forall|j: int|
                0 <= j < s.len() && !(a <= j < b) ==> is_white_space(#[trigger] s[j])) && (a < b
                ==> !is_white_space(s[a]) && !is_white_space(s[b - 1])),
{
    let a = leading_white_space(s);
    let rest = s.skip(a);
    let n = trailing_white_space(rest);
    let b = a + n;
    assert(rest.take(n) =~= s.subrange(a, b));
    assert forall|j: int| 0 <= j < s.len() && !(a <= j < b) implies is_white_space(
        #[trigger] s[j],
    ) by {
        if j >= b {
            assert(rest[j - a] == s[j]);
        }
    }
    if a < b {
        assert(rest[n - 1] == s[b - 1]);
    }
}

proof fn lines_up_to_a_line_feed(s: Seq<char>, start: int, end: int, stop: int)
    requires
        0 <= start <= end <= stop < s.len(),
        s[stop] == '\n',
        forall|i: int| end <= i < stop ==> s[i] != '\n',
    ensures
        lines_from(s, start, end) == seq![
            without_carriage_return(s.subrange(start, stop)),
        ] + lines_from(s, stop + 1, stop + 1),
    decreases stop - end,
{
    if end < stop {
        lines_up_to_a_line_feed(s, start, end + 1, stop);
    }
}

proof fn lines_without_a_line_feed(s: Seq<char>, start: int, end: int)
    requires
        0 <= start <= end <= s.len(),
        forall|i: int| end <= i < s.len() ==> s[i] != '\n',
    ensures
        lines_from(s, start, end) == if start >= s.len() {
            Seq::<Seq<char>>::empty()
        } else {
            seq![s.subrange(start, s.len() as int)]
        },
    decreases s.len() - end,
{
    if end < s.len() {
        lines_without_a_line_feed(s, start, end + 1);
    }
}

proof fn lines_of_a_tail(head: Seq<char>, tail: Seq<char>, start: int, end: int)
    requires
        0 <= start <= end <= tail.len(),
    ensures
        lines_from(head + tail, head.len() + start, head.len() + end) == lines_from(
            tail,
            start,
            end,
        ),
    decreases tail.len() - end,
{
    let s = head + tail;
    let n = head.len() as int;
    if end < tail.len() {
        assert(s[n + end] == tail[end]);
        if tail[end] == '\n' {
            lines_of_a_tail(head, tail, end + 1, end + 1);
            assert(s.subrange(n + start, n + end) =~= tail.subrange(start, end));
        } else {
            lines_of_a_tail(head, tail, start, end + 1);
        }
    } else if start < tail.len() {
        assert(s.subrange(n + start, s.len() as int) =~= tail.subrange(
            start,
            tail.len() as int,
        ));
    }
}

/// A text is split at its first line feed: what is before it is a line, less a carriage
/// return at its end, and what is after it is split in the same way. A text without a line
/// feed is one line as it stands, or none where it is empty.
pub proof fn texts_are_split_at_line_feeds(line: Seq<char>, rest: Seq<char>)
    requires
        !line.contains('\n'),
    ensures
        lines_spec(line + seq!['\n'] + rest) == seq![
            if line.len() > 0 && line.last() == '\r' {
                line.drop_last()
            } else {
                line
            },
        ] + lines_spec(rest),
        lines_spec(line) == if line.len() == 0 {
            Seq::<Seq<char>>::empty()
        } else {
            seq![line]
        },
{
    let head = line + seq!['\n'];
    let s = head + rest;
    assert forall|i: int| 0 <= i < line.len() implies s[i] != '\n' && line[i] != '\n' by {
        assert(line.contains(line[i]));
        assert(s[i] == line[i]);
    }
    lines_up_to_a_line_feed(s, 0, 0, line.len() as int);
    assert(s.subrange(0, line.len() as int) =~= line);
    lines_of_a_tail(head, rest, 0, 0);
    lines_without_a_line_feed(line, 0, 0);
    assert(line.subrange(0, line.len() as int) =~= line);
}

} // verus!
