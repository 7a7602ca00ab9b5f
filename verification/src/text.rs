//! Text as sequences of characters: joining, trimming, splitting into lines,
//! searching, and decimal numbers.

use vstd::prelude::*;

verus! {

/// The characters of `s`, in order.
pub fn chars_of(s: &str) -> (v: Vec<char>)
    ensures
        v@ == s@,
{
    let mut v: Vec<char> = Vec::new();
    for c in it: s.chars()
        invariant
            v@ == it.seq().take(it.index()),
            it.seq() == s@,
    {
        v.push(c);
        assert(it.seq().take(it.index()).push(c) =~= it.seq().take(it.index() + 1));
    }
    v
}

/// The string made of `chars[from..to]`.
pub fn string_of(chars: &[char], from: usize, to: usize) -> (s: String)
    requires
        from <= to <= chars@.len(),
    ensures
        s@ == chars@.subrange(from as int, to as int),
{
    let mut s = String::new();
    let mut i: usize = from;
    while i < to
        invariant
            from <= i <= to <= chars@.len(),
            s@ == chars@.subrange(from as int, i as int),
        decreases to - i,
    {
        s.push(chars[i]);
        i += 1;
        assert(chars@.subrange(from as int, i - 1).push(chars@[i - 1]) =~= chars@.subrange(
            from as int,
            i as int,
        ));
    }
    s
}

/// Whether two strings hold the same characters.
pub fn same_text(a: &str, b: &str) -> (same: bool)
    ensures
        same == (a@ == b@),
{
    let x = chars_of(a);
    let y = chars_of(b);
    if x.len() != y.len() {
        return false;
    }
    let mut i: usize = 0;
    while i < x.len()
        invariant
            i <= x@.len(),
            x@.len() == y@.len(),
            x@ == a@,
            y@ == b@,
            forall|j: int| 0 <= j < i ==> x@[j] == y@[j],
        decreases x@.len() - i,
    {
        if x[i] != y[i] {
            return false;
        }
        i += 1;
    }
    assert(a@ =~= b@);
    true
}

/// Two texts, one after the other.
pub fn join2(a: &str, b: &str) -> (s: String)
    ensures
        s@ == a@ + b@,
{
    let mut s = a.to_owned();
    s.append(b);
    s
}

/// Three texts, one after the other.
pub fn join3(a: &str, b: &str, c: &str) -> (s: String)
    ensures
        s@ == a@ + b@ + c@,
{
    let mut s = join2(a, b);
    s.append(c);
    s
}

// ---------------------------------------------------------------------------
// white space

/// The characters with the Unicode property `White_Space`.
pub open spec fn is_white(c: char) -> bool {
    ||| '\u{9}' <= c <= '\u{d}'
    ||| c == ' '
    ||| c == '\u{85}'
    ||| c == '\u{a0}'
    ||| c == '\u{1680}'
    ||| '\u{2000}' <= c <= '\u{200a}'
    ||| c == '\u{2028}'
    ||| c == '\u{2029}'
    ||| c == '\u{202f}'
    ||| c == '\u{205f}'
    ||| c == '\u{3000}'
}

/// Whether `c` is white space.
pub fn white(c: char) -> (b: bool)
    ensures
        b == is_white(c),
{
    ('\u{9}' <= c && c <= '\u{d}') || c == ' ' || c == '\u{85}' || c == '\u{a0}' || c == '\u{1680}'
        || ('\u{2000}' <= c && c <= '\u{200a}') || c == '\u{2028}' || c == '\u{2029}' || c
        == '\u{202f}' || c == '\u{205f}' || c == '\u{3000}'
}

/// `s` without the white space that it starts with.
pub open spec fn trimmed_start(s: Seq<char>) -> Seq<char>
    decreases s.len(),
{
    if s.len() > 0 && is_white(s.first()) {
        trimmed_start(s.drop_first())
    } else {
        s
    }
}

/// `s` without the white space that it ends with.
pub open spec fn trimmed_end(s: Seq<char>) -> Seq<char>
    decreases s.len(),
{
    if s.len() > 0 && is_white(s.last()) {
        trimmed_end(s.drop_last())
    } else {
        s
    }
}

/// `s` without the white space at either end.
pub open spec fn trimmed(s: Seq<char>) -> Seq<char> {
    trimmed_end(trimmed_start(s))
}

/// What is left of `s` when the white space at either end is taken away.
pub fn trim(s: &str) -> (t: String)
    ensures
        t@ == trimmed(s@),
{
    let chars = chars_of(s);
    let mut from: usize = 0;
    assert(s@.skip(0) =~= s@);
    while from < chars.len() && white(chars[from])
        invariant
            from <= chars@.len(),
            chars@ == s@,
            trimmed_start(s@.skip(from as int)) == trimmed_start(s@),
        decreases chars@.len() - from,
    {
        assert(s@.skip(from as int).drop_first() =~= s@.skip(from + 1));
        from += 1;
    }
    assert(trimmed_start(s@) == s@.skip(from as int));
    let mut to: usize = chars.len();
    assert(s@.subrange(from as int, to as int) =~= s@.skip(from as int));
    while from < to && white(chars[to - 1])
        invariant
            from <= to <= chars@.len(),
            chars@ == s@,
            trimmed_end(s@.subrange(from as int, to as int)) == trimmed(s@),
        decreases to - from,
    {
        assert(s@.subrange(from as int, to as int).drop_last() =~= s@.subrange(
            from as int,
            to - 1,
        ));
        to -= 1;
    }
    string_of(chars.as_slice(), from, to)
}

proof fn trimmed_start_is_suffix(s: Seq<char>)
    ensures
        trimmed_start(s).len() <= s.len(),
        trimmed_start(s) == s.skip(s.len() - trimmed_start(s).len()),
        trimmed_start(s).len() > 0 ==> !is_white(trimmed_start(s).first()),
        forall|i: int| 0 <= i < s.len() - trimmed_start(s).len() ==> is_white(#[trigger] s[i]),
    decreases s.len(),
{
    if s.len() > 0 && is_white(s.first()) {
        trimmed_start_is_suffix(s.drop_first());
        let n = trimmed_start(s).len() as int;
        assert(s.drop_first().skip(s.len() - 1 - n) =~= s.skip(s.len() - n));
        assert forall|i: int| 0 <= i < s.len() - n implies is_white(#[trigger] s[i]) by {
            if i > 0 {
                assert(s[i] == s.drop_first()[i - 1]);
            }
        }
    } else {
        assert(s.skip(0) =~= s);
    }
}

proof fn trimmed_end_is_prefix(s: Seq<char>)
    ensures
        trimmed_end(s).len() <= s.len(),
        trimmed_end(s) == s.take(trimmed_end(s).len() as int),
        trimmed_end(s).len() > 0 ==> !is_white(trimmed_end(s).last()),
        forall|i: int| trimmed_end(s).len() <= i < s.len() ==> is_white(#[trigger] s[i]),
    decreases s.len(),
{
    if s.len() > 0 && is_white(s.last()) {
        trimmed_end_is_prefix(s.drop_last());
        let n = trimmed_end(s).len() as int;
        assert(s.drop_last().take(n) =~= s.take(n));
        assert forall|i: int| n <= i < s.len() implies is_white(#[trigger] s[i]) by {
            if i < s.len() - 1 {
                assert(s[i] == s.drop_last()[i]);
            }
        }
    } else {
        assert(s.take(s.len() as int) =~= s);
    }
}

/// What is left after trimming neither starts nor ends with white space, so
/// trimming it again changes nothing.
pub proof fn trimming_is_final(s: Seq<char>)
    ensures
        trimmed(s).len() > 0 ==> !is_white(trimmed(s).first()) && !is_white(trimmed(s).last()),
        trimmed(trimmed(s)) == trimmed(s),
{
    trimmed_start_is_suffix(s);
    trimmed_end_is_prefix(trimmed_start(s));
}

// ---------------------------------------------------------------------------
// lines

/// A line as it stands before its newline: one carriage return at its end
/// belongs to the line ending.
pub open spec fn without_return(line: Seq<char>) -> Seq<char> {
    if line.len() > 0 && line.last() == '\r' {
        line.drop_last()
    } else {
        line
    }
}

/// The pieces between the newlines of `s`; there is one more than newlines.
pub open spec fn split_at_newlines(s: Seq<char>) -> Seq<Seq<char>>
    decreases s.len(),
{
    if s.len() == 0 {
        seq![Seq::empty()]
    } else {
        let before = split_at_newlines(s.drop_last());
        if s.last() == '\n' {
            before.push(Seq::empty())
        } else {
            before.drop_last().push(before.last().push(s.last()))
        }
    }
}

/// The lines of `s`. Each newline ends a line; what follows the last newline is
/// a line of its own where it is not empty.
pub open spec fn lines_of(s: Seq<char>) -> Seq<Seq<char>> {
    let pieces = split_at_newlines(s);
    let ended = pieces.drop_last().map_values(|piece: Seq<char>| without_return(piece));
    if pieces.last().len() == 0 {
        ended
    } else {
        ended.push(pieces.last())
    }
}

/// What the strings of `v` hold.
pub open spec fn texts(v: Seq<String>) -> Seq<Seq<char>> {
    v.map_values(|s: String| s@)
}

pub broadcast proof fn texts_push(v: Seq<String>, s: String)
    ensures
        #[trigger] texts(v.push(s)) == texts(v).push(s@),
{
    assert(texts(v.push(s)) =~= texts(v).push(s@));
}

/// The lines of a text.
pub fn lines(s: &str) -> (v: Vec<String>)
    ensures
        texts(v@) == lines_of(s@),
{
    broadcast use texts_push;

    let chars = chars_of(s);
    let mut v: Vec<String> = Vec::new();
    let mut piece: Vec<char> = Vec::new();
    let mut i: usize = 0;
    assert(texts(v@) =~= Seq::empty());
    assert(s@.take(0) =~= Seq::empty());
    proof {
        let first = split_at_newlines(s@.take(0));
        assert(first.drop_last().map_values(|p: Seq<char>| without_return(p)) =~= Seq::empty());
        assert(piece@ =~= first.last());
    }
    while i < chars.len()
        invariant
            i <= chars@.len(),
            chars@ == s@,
            split_at_newlines(s@.take(i as int)).len() >= 1,
            piece@ == split_at_newlines(s@.take(i as int)).last(),
            texts(v@) == split_at_newlines(s@.take(i as int)).drop_last().map_values(
                |p: Seq<char>| without_return(p),
            ),
        decreases chars@.len() - i,
    {
        let c = chars[i];
        let ghost before = split_at_newlines(s@.take(i as int));
        let ghost after = split_at_newlines(s@.take(i + 1));
        assert(s@.take(i + 1).drop_last() =~= s@.take(i as int));
        if c == '\n' {
            let mut end: usize = piece.len();
            if end > 0 && piece[end - 1] == '\r' {
                end -= 1;
                assert(piece@.subrange(0, end as int) =~= piece@.drop_last());
            } else {
                assert(piece@.subrange(0, end as int) =~= piece@);
            }
            let line = string_of(piece.as_slice(), 0, end);
            v.push(line);
            piece = Vec::new();
            assert(after.drop_last() =~= before);
            assert(before =~= before.drop_last().push(before.last()));
            assert(before.map_values(|p: Seq<char>| without_return(p)) =~= before.drop_last().map_values(
                |p: Seq<char>| without_return(p),
            ).push(without_return(before.last())));
            assert(piece@ =~= after.last());
        } else {
            piece.push(c);
            assert(after.drop_last() =~= before.drop_last());
        }
        i += 1;
    }
    assert(s@.take(i as int) =~= s@);
    if piece.len() > 0 {
        assert(piece@.subrange(0, piece@.len() as int) =~= piece@);
        let line = string_of(piece.as_slice(), 0, piece.len());
        v.push(line);
    }
    v
}

// ---------------------------------------------------------------------------
// searching

/// Whether `part` stands in `s` at `at`.
pub open spec fn stands_at(s: Seq<char>, part: Seq<char>, at: int) -> bool {
    0 <= at && at + part.len() <= s.len() && s.subrange(at, at + part.len()) == part
}

/// Whether `part` stands somewhere in `s`.
pub open spec fn holds_text(s: Seq<char>, part: Seq<char>) -> bool {
    exists|at: int| stands_at(s, part, at)
}

fn found_at(chars: &Vec<char>, part: &Vec<char>, at: usize) -> (found: bool)
    requires
        at + part@.len() <= chars@.len(),
    ensures
        found == stands_at(chars@, part@, at as int),
{
    let mut i: usize = 0;
    let n = chars.len();
    while i < part.len()
        invariant
            i <= part@.len(),
            n == chars@.len(),
            at + part@.len() <= n,
            forall|j: int| 0 <= j < i ==> chars@[at + j] == part@[j],
        decreases part@.len() - i,
    {
        if chars[at + i] != part[i] {
            assert(chars@.subrange(at as int, at + part@.len())[i as int] != part@[i as int]);
            return false;
        }
        i += 1;
    }
    assert(chars@.subrange(at as int, at + part@.len()) =~= part@);
    true
}

/// Where `part` stands in `s` for the last time, counted in characters.
pub fn last_place(s: &str, part: &str) -> (at: Option<usize>)
    ensures
        match at {
            Some(p) => stands_at(s@, part@, p as int) && forall|q: int|
                stands_at(s@, part@, q) ==> q <= p,
            None => !holds_text(s@, part@),
        },
{
    let chars = chars_of(s);
    let wanted = chars_of(part);
    if wanted.len() > chars.len() {
        return None;
    }
    let mut at: usize = chars.len() - wanted.len();
    while !found_at(&chars, &wanted, at)
        invariant
            at + wanted@.len() <= chars@.len(),
            chars@ == s@,
            wanted@ == part@,
            forall|q: int| stands_at(s@, part@, q) ==> q <= at,
        decreases at,
    {
        if at == 0 {
            return None;
        }
        at -= 1;
    }
    Some(at)
}

/// Whether `part` stands somewhere in `s`.
pub fn has_text(s: &str, part: &str) -> (b: bool)
    ensures
        b == holds_text(s@, part@),
{
    match last_place(s, part) {
        Some(p) => {
            assert(stands_at(s@, part@, p as int));
            true
        },
        None => false,
    }
}

/// Whether `s` starts with `c`.
pub fn starts_with_char(s: &str, c: char) -> (b: bool)
    ensures
        b == (s@.len() > 0 && s@[0] == c),
{
    let chars = chars_of(s);
    chars.len() > 0 && chars[0] == c
}

// ---------------------------------------------------------------------------
// decimal numbers

/// The digit that stands for `d`.
pub open spec fn digit_char(d: nat) -> char {
    ('0' as nat + d) as char
}

/// `n` in decimal, without leading zeros.
pub open spec fn decimal(n: nat) -> Seq<char>
    decreases n,
{
    if n < 10 {
        seq![digit_char(n)]
    } else {
        decimal(n / 10).push(digit_char(n % 10))
    }
}

/// Whether `c` is one of the ten ASCII digits.
pub open spec fn is_digit(c: char) -> bool {
    '0' <= c <= '9'
}

/// What a digit stands for.
pub open spec fn digit_of(c: char) -> nat {
    (c as nat - '0' as nat) as nat
}

/// What a row of digits stands for in decimal.
pub open spec fn decimal_value(s: Seq<char>) -> nat
    decreases s.len(),
{
    if s.len() == 0 {
        0
    } else {
        decimal_value(s.drop_last()) * 10 + digit_of(s.last())
    }
}

/// `s` without the plus sign that it may start with.
pub open spec fn without_plus(s: Seq<char>) -> Seq<char> {
    if s.len() > 0 && s[0] == '+' {
        s.drop_first()
    } else {
        s
    }
}

/// Whether `s` holds digits and nothing else.
pub open spec fn all_digits(s: Seq<char>) -> bool {
    forall|i: int| 0 <= i < s.len() ==> is_digit(s[i])
}

/// The number that `s` writes: digits, at least one, after at most one plus
/// sign, for a number that is not above `max`.
pub open spec fn number_of(s: Seq<char>, max: nat) -> Option<nat> {
    let digits = without_plus(s);
    if digits.len() > 0 && all_digits(digits) && decimal_value(digits) <= max {
        Some(decimal_value(digits))
    } else {
        None
    }
}

/// Reading on never makes the value smaller.
proof fn value_grows(s: Seq<char>, i: int)
    requires
        0 <= i <= s.len(),
    ensures
        decimal_value(s.take(i)) <= decimal_value(s),
    decreases s.len(),
{
    if i < s.len() {
        value_grows(s.drop_last(), i);
        assert(s.drop_last().take(i) =~= s.take(i));
    } else {
        assert(s.take(i) =~= s);
    }
}

/// Reads an unsigned number of at most 64 bits that is not above `max`.
pub fn parse_number(s: &str, max: u64) -> (n: Option<u64>)
    ensures
        match n {
            Some(v) => number_of(s@, max as nat) == Some(v as nat),
            None => number_of(s@, max as nat) is None,
        },
{
    let chars = chars_of(s);
    let mut from: usize = 0;
    if chars.len() > 0 && chars[0] == '+' {
        from = 1;
    }
    let ghost digits = without_plus(s@);
    assert(digits =~= s@.skip(from as int));
    if from == chars.len() {
        return None;
    }
    let mut value: u64 = 0;
    let mut i: usize = from;
    assert(digits.take(0) =~= Seq::empty());
    while i < chars.len()
        invariant
            from <= i <= chars@.len(),
            chars@ == s@,
            digits == without_plus(s@),
            digits == s@.skip(from as int),
            forall|j: int| 0 <= j < i - from ==> is_digit(digits[j]),
            value == decimal_value(digits.take(i - from)),
            value <= max,
        decreases chars@.len() - i,
    {
        let c = chars[i];
        assert(c == digits[i - from]);
        if c < '0' || '9' < c {
            assert(!is_digit(digits[i - from]));
            return None;
        }
        let d: u64 = (c as u32 - '0' as u32) as u64;
        assert(digits.take(i - from + 1).drop_last() =~= digits.take(i - from));
        assert(decimal_value(digits.take(i - from + 1)) == value * 10 + d);
        if value > max / 10 || d > max - value * 10 {
            proof {
                value_grows(digits, i - from + 1);
            }
            return None;
        }
        value = value * 10 + d;
        i += 1;
    }
    assert(digits.take(i - from) =~= digits);
    Some(value)
}

/// Writes `n` in decimal.
pub fn decimal_text(n: u64) -> (s: String)
    ensures
        s@ == decimal(n as nat),
    decreases n,
{
    let d: u8 = '0' as u8 + (n % 10) as u8;
    let mut s = if n < 10 {
        String::new()
    } else {
        decimal_text(n / 10)
    };
    s.push(d as char);
    assert(d as char == digit_char((n % 10) as nat));
    s
}

proof fn decimal_is_digits(n: nat)
    ensures
        decimal(n).len() > 0,
        all_digits(decimal(n)),
        decimal_value(decimal(n)) == n,
    decreases n,
{
    let last = decimal(n).last();
    if n < 10 {
        assert(decimal(n).drop_last() =~= Seq::empty());
        assert(decimal_value(Seq::<char>::empty()) == 0);
    } else {
        decimal_is_digits(n / 10);
        assert(decimal(n).drop_last() =~= decimal(n / 10));
    }
}

/// A number that is written in decimal is read back.
pub proof fn written_numbers_are_read_back(n: nat, max: nat)
    requires
        n <= max,
    ensures
        number_of(decimal(n), max) == Some(n),
{
    decimal_is_digits(n);
    assert(is_digit(decimal(n)[0]));
}

// ---------------------------------------------------------------------------
// what trimming, lines and numbers are

/// Only white space is trimmed, and all of it: what is taken away at either end
/// is white space, and what is left neither starts nor ends with any.
pub proof fn trimming_takes_white_space_only(s: Seq<char>)
    ensures
        exists|from: int, to: int|
            {
                &&& 0 <= from <= to <= s.len()
                &&& trimmed(s) == #[trigger] s.subrange(from, to)
                &&& forall|i: int|
                    0 <= i < from || to <= i < s.len() ==> is_white(#[trigger] s[i])
                &&& from < to ==> !is_white(s[from]) && !is_white(s[to - 1])
            },
{
    let middle = trimmed_start(s);
    trimmed_start_is_suffix(s);
    trimmed_end_is_prefix(middle);
    let from = s.len() - middle.len();
    let to = from + trimmed(s).len();
    assert(trimmed(s) =~= s.subrange(from, to));
    assert forall|i: int| 0 <= i < from || to <= i < s.len() implies is_white(#[trigger] s[i]) by {
        if i >= to {
            assert(s[i] == middle[i - from]);
        }
    }
    assert(from < to ==> s.subrange(from, to)[0] == s[from]);
}

proof fn split_in_turn(a: Seq<char>, b: Seq<char>)
    requires
        a.len() > 0 && a.last() == '\n',
    ensures
        split_at_newlines(a + b) == split_at_newlines(a).drop_last() + split_at_newlines(b),
        split_at_newlines(a).len() >= 1,
        split_at_newlines(a).last().len() == 0,
        split_at_newlines(b).len() >= 1,
    decreases b.len(),
{
    let first = split_at_newlines(a);
    if b.len() == 0 {
        assert(a + b =~= a);
        assert(first =~= first.drop_last() + seq![Seq::<char>::empty()]);
    } else {
        assert((a + b).drop_last() =~= a + b.drop_last());
        split_in_turn(a, b.drop_last());
        let before = split_at_newlines(b.drop_last());
        let both = split_at_newlines(a + b.drop_last());
        assert(both.last() == before.last());
        assert(split_at_newlines(a + b) =~= first.drop_last() + split_at_newlines(b));
    }
}

/// Lines are read in turn: what follows a newline is read as if it stood alone.
pub proof fn lines_are_read_in_turn(a: Seq<char>, b: Seq<char>)
    requires
        a.len() > 0 && a.last() == '\n',
    ensures
        lines_of(a + b) == lines_of(a) + lines_of(b),
{
    split_in_turn(a, b);
    assert(lines_of(a + b) =~= lines_of(a) + lines_of(b));
}

proof fn split_of_one_line(a: Seq<char>)
    requires
        forall|i: int| 0 <= i < a.len() ==> a[i] != '\n',
    ensures
        split_at_newlines(a) == seq![a],
    decreases a.len(),
{
    if a.len() > 0 {
        split_of_one_line(a.drop_last());
        assert(a.drop_last().push(a.last()) =~= a);
        assert(split_at_newlines(a) =~= seq![a]);
    } else {
        assert(a =~= Seq::empty());
    }
}

/// Text without a newline is one line, or none where it is empty. Text up to and
/// with its one newline is one line, without the newline and without a carriage
/// return in front of it.
pub proof fn one_line_is_one_line(a: Seq<char>)
    requires
        forall|i: int| 0 <= i < a.len() ==> a[i] != '\n',
    ensures
        a.len() == 0 ==> lines_of(a).len() == 0,
        a.len() > 0 ==> lines_of(a) == seq![a],
        lines_of(a.push('\n')).len() == 1,
        a.len() > 0 && a.last() == '\r' ==> lines_of(a.push('\n'))[0] == a.drop_last(),
        a.len() == 0 || a.last() != '\r' ==> lines_of(a.push('\n'))[0] == a,
{
    split_of_one_line(a);
    assert(a.push('\n').drop_last() =~= a);
    assert(split_at_newlines(a.push('\n')) =~= seq![a, Seq::empty()]);
    assert(seq![a, Seq::<char>::empty()].drop_last() =~= seq![a]);
    if a.len() > 0 {
        assert(lines_of(a) =~= seq![a]);
    }
}

/// A number is read digit by digit: one more digit makes ten times the number
/// and the digit, or nothing where that is above what is allowed.
pub proof fn numbers_grow_digit_by_digit(s: Seq<char>, max: nat, c: char, limit: nat)
    requires
        number_of(s, max) is Some,
        '0' <= c <= '9',
    ensures
        ({
            let n = number_of(s, max)->0 * 10 + (c as nat - '0' as nat);
            &&& n <= limit ==> number_of(s.push(c), limit) == Some(n as nat)
            &&& n > limit ==> number_of(s.push(c), limit) is None
        }),
{
    let digits = without_plus(s);
    assert(without_plus(s.push(c)) =~= digits.push(c));
    assert(digits.push(c).drop_last() =~= digits);
    assert forall|i: int| 0 <= i < digits.push(c).len() implies is_digit(digits.push(c)[i]) by {
        if i < digits.len() {
            assert(is_digit(digits[i]));
        }
    }
}

/// What is read as a number holds digits only, but for a plus sign that it may
/// start with, and is no larger than allowed.
pub proof fn numbers_hold_digits_only(s: Seq<char>, max: nat)
    requires
        number_of(s, max) is Some,
    ensures
        number_of(s, max)->0 <= max,
        s.len() > 0,
        '0' <= s.last() <= '9',
        forall|i: int| 0 < i < s.len() ==> '0' <= #[trigger] s[i] <= '9',
        s[0] == '+' || '0' <= s[0] <= '9',
{
    let digits = without_plus(s);
    assert forall|i: int| 0 < i < s.len() implies '0' <= #[trigger] s[i] <= '9' by {
        if s[0] == '+' {
            assert(is_digit(digits[i - 1]));
        } else {
            assert(is_digit(digits[i]));
        }
    }
    if s[0] != '+' {
        assert(is_digit(digits[0]));
    }
}

/// A number is written with its digits alone, as many as it has: no sign and no
/// zero in front.
pub proof fn numbers_are_written_plainly(n: nat)
    ensures
        decimal(n).len() > 0,
        forall|i: int| 0 <= i < decimal(n).len() ==> '0' <= #[trigger] decimal(n)[i] <= '9',
        n > 0 ==> decimal(n)[0] != '0',
        n < 10 ==> decimal(n).len() == 1,
        n >= 10 ==> decimal(n).len() == decimal(n / 10).len() + 1,
    decreases n,
{
    if n >= 10 {
        numbers_are_written_plainly(n / 10);
    }
}

} // verus!
