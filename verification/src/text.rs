//! Reading numbers and lines out of text.

use vstd::prelude::*;

verus! {

/// The characters of a string.
pub fn chars_of(s: &str) -> (v: Vec<char>)
    ensures
        v@ == s@,
{
    let mut v: Vec<char> = Vec::new();
    for c in it: s.chars()
        invariant
            v@ == s@.take(it.index()),
            it.seq() == s@,
    {
        v.push(c);
        assert(v@ =~= s@.take(it.index() + 1));
    }
    assert(v@ =~= s@);
    v
}

/// Whether two texts are the same.
pub fn same_text(a: &str, b: &str) -> (same: bool)
    ensures
        same == (a@ == b@),
{
    a.to_owned() == b.to_owned()
}

/// Calls `String::push`, which appends one character to the end of the
/// string.
#[verifier::external_body]
fn push_char(s: &mut String, c: char)
    ensures
        final(s)@ == old(s)@.push(c),
{
    s.push(c)
}

/// The string of the characters from `from` up to `to`.
pub fn string_of(chars: &Vec<char>, from: usize, to: usize) -> (s: String)
    requires
        from <= to <= chars@.len(),
    ensures
        s@ == chars@.subrange(from as int, to as int),
{
    let mut s = String::new();
    let mut i: usize = from;
    while i < to
        invariant
            from <= i <= to <= chars@.len(),
            s@ == chars@.subrange(from as int, i as int),
        decreases to - i,
    {
        push_char(&mut s, chars[i]);
        assert(s@ =~= chars@.subrange(from as int, i + 1));
        i += 1;
    }
    s
}

/// The place of the first `c` in `s`; the length of `s` where it has none.
pub open spec fn index_of(s: Seq<char>, c: char) -> int
    decreases s.len(),
{
    if s.len() == 0 {
        0
    } else if s[0] == c {
        0
    } else {
        1 + index_of(s.drop_first(), c)
    }
}

/// `index_of` is the place before which no `c` stands and at which, within
/// `s`, one does.
pub proof fn lemma_index_of(s: Seq<char>, c: char)
    ensures
        0 <= index_of(s, c) <= s.len(),
        forall|j: int| 0 <= j < index_of(s, c) ==> s[j] != c,
        index_of(s, c) < s.len() ==> s[index_of(s, c)] == c,
    decreases s.len(),
{
    if s.len() > 0 && s[0] != c {
        let rest = s.drop_first();
        lemma_index_of(rest, c);
        assert forall|j: int| 0 <= j < index_of(s, c) implies s[j] != c by {
            if j > 0 {
                assert(s[j] == rest[j - 1]);
            }
        }
    }
}

/// The place that `lemma_index_of` describes is the only one.
pub proof fn lemma_index_of_is(s: Seq<char>, c: char, k: int)
    requires
        0 <= k <= s.len(),
        forall|j: int| 0 <= j < k ==> s[j] != c,
        k < s.len() ==> s[k] == c,
    ensures
        index_of(s, c) == k,
{
    lemma_index_of(s, c);
    let r = index_of(s, c);
    if r < k {
        assert(s[r] != c);
    }
    if k < r {
        assert(s[k] != c);
    }
}

/// Finds the first `c` from `from` on and before `to`.
pub fn find(chars: &Vec<char>, from: usize, to: usize, c: char) -> (k: usize)
    requires
        from <= to <= chars@.len(),
    ensures
        from <= k <= to,
        k - from == index_of(chars@.subrange(from as int, to as int), c),
{
    let mut k: usize = from;
    while k < to && chars[k] != c
        invariant
            from <= k <= to <= chars@.len(),
            forall|j: int| from <= j < k ==> chars@[j] != c,
        decreases to - k,
    {
        k += 1;
    }
    proof {
        lemma_index_of_is(chars@.subrange(from as int, to as int), c, k - from);
    }
    k
}

/// Whether a character is one of the ten digits.
pub open spec fn is_digit(c: char) -> bool {
    '0' <= c && c <= '9'
}

/// The number that a digit stands for.
pub open spec fn digit_value(c: char) -> nat {
    (c as u32 - '0' as u32) as nat
}

/// Whether a text holds digits alone.
pub open spec fn all_digits(s: Seq<char>) -> bool {
    forall|i: int| 0 <= i < s.len() ==> is_digit(#[trigger] s[i])
}

/// The number that a text of digits spells in base ten.
pub open spec fn digits_value(s: Seq<char>) -> nat
    decreases s.len(),
{
    if s.len() == 0 {
        0
    } else {
        digits_value(s.drop_last()) * 10 + digit_value(s.last())
    }
}

/// The number that a text spells, where the text is one digit or more
/// and the number is at most `max`.
pub open spec fn number_of(s: Seq<char>, max: nat) -> Option<nat> {
    if s.len() > 0 && all_digits(s) && digits_value(s) <= max {
        Some(digits_value(s))
    } else {
        None
    }
}

/// More digits never spell a smaller number.
proof fn lemma_digits_grow(s: Seq<char>, k: int)
    requires
        0 <= k <= s.len(),
    ensures
        digits_value(s.take(k)) <= digits_value(s),
    decreases s.len() - k,
{
    if k < s.len() {
        lemma_digits_grow(s.drop_last(), k);
        assert(s.drop_last().take(k) =~= s.take(k));
    } else {
        assert(s.take(k) =~= s);
    }
}

/// Reads the number that the characters from `from` up to `to` spell.
pub fn parse_digits(chars: &Vec<char>, from: usize, to: usize, max: u64) -> (r: Option<u64>)
    requires
        from <= to <= chars@.len(),
    ensures
        match number_of(chars@.subrange(from as int, to as int), max as nat) {
            Some(n) => r == Some(n as u64),
            None => r.is_none(),
        },
{
    let ghost s = chars@.subrange(from as int, to as int);
    if from == to {
        return None;
    }
    let mut acc: u64 = 0;
    let mut i: usize = from;
    while i < to
        invariant
            from <= i <= to <= chars@.len(),
            s == chars@.subrange(from as int, to as int),
            all_digits(s.take(i - from)),
            acc == digits_value(s.take(i - from)),
            acc <= max,
        decreases to - i,
    {
        let c = chars[i];
        proof {
            assert(s.take(i - from + 1).drop_last() =~= s.take(i - from));
            assert(s.take(i - from + 1).last() == c);
            lemma_digits_grow(s, i - from + 1);
        }
        if !(c >= '0' && c <= '9') {
            assert(!is_digit(s[i - from]));
            return None;
        }
        let d: u64 = (c as u32 - '0' as u32) as u64;
        if d > max || acc > (max - d) / 10 {
            return None;
        }
        acc = acc * 10 + d;
        assert(all_digits(s.take(i - from + 1))) by {
            assert forall|j: int| 0 <= j < i - from + 1 implies is_digit(
                #[trigger] s.take(i - from + 1)[j],
            ) by {
                if j < i - from {
                    assert(is_digit(s.take(i - from)[j]));
                }
            }
        }
        i += 1;
    }
    assert(s.take(to - from) =~= s);
    Some(acc)
}

/// Reads a number that fits in 32 bits.
pub fn parse_u32(text: &str) -> (r: Option<u32>)
    ensures
        match number_of(text@, u32::MAX as nat) {
            Some(n) => r == Some(n as u32),
            None => r.is_none(),
        },
{
    let chars = chars_of(text);
    assert(chars@.subrange(0, chars@.len() as int) =~= text@);
    match parse_digits(&chars, 0, chars.len(), 0xffff_ffff) {
        Some(n) => Some(n as u32),
        None => None,
    }
}

/// Reads a number that fits in a machine word.
pub fn parse_usize(text: &str) -> (r: Option<usize>)
    ensures
        match number_of(text@, usize::MAX as nat) {
            Some(n) => r == Some(n as usize),
            None => r.is_none(),
        },
{
    let chars = chars_of(text);
    assert(chars@.subrange(0, chars@.len() as int) =~= text@);
    match parse_digits(&chars, 0, chars.len(), usize::MAX as u64) {
        Some(n) => Some(n as usize),
        None => None,
    }
}

/// Whether a text is one digit or more, with an optional minus sign before
/// them.
pub open spec fn is_signed_digits(s: Seq<char>) -> bool {
    if s.len() > 0 && s[0] == '-' {
        s.len() > 1 && all_digits(s.skip(1))
    } else {
        s.len() > 0 && all_digits(s)
    }
}

/// Whether a text spells a decimal number: an optional minus sign, digits,
/// optionally a point and more digits, optionally the letter `e` and a
/// power of ten with an optional minus sign. Each run of digits has one
/// digit or more, and no run is limited in length.
pub open spec fn is_decimal(text: Seq<char>) -> bool {
    let negative = text.len() > 0 && text[0] == '-';
    let start: int = if negative {
        1
    } else {
        0
    };
    let end = text.len() as int;
    let e = start + index_of(text.subrange(start, end), 'e');
    let dot = start + index_of(text.subrange(start, e), '.');
    let whole = text.subrange(start, dot);
    &&& whole.len() > 0 && all_digits(whole)
    &&& dot < e ==> dot + 1 < e && all_digits(text.subrange(dot + 1, e))
    &&& e < end ==> is_signed_digits(text.subrange(e + 1, end))
}

/// The decimal number that a text spells, as it is written, if the text
/// spells one.
pub open spec fn decimal_of(text: Seq<char>) -> Option<Seq<char>> {
    if is_decimal(text) {
        Some(text)
    } else {
        None
    }
}

/// Whether the characters from `from` up to `to` are digits, one or more.
pub fn digits_in(chars: &Vec<char>, from: usize, to: usize) -> (b: bool)
    requires
        from <= to <= chars@.len(),
    ensures
        b == (from < to && all_digits(chars@.subrange(from as int, to as int))),
{
    let ghost s = chars@.subrange(from as int, to as int);
    if from == to {
        return false;
    }
    let mut i: usize = from;
    while i < to
        invariant
            from <= i <= to <= chars@.len(),
            s == chars@.subrange(from as int, to as int),
            forall|j: int| 0 <= j < i - from ==> is_digit(#[trigger] s[j]),
        decreases to - i,
    {
        let c = chars[i];
        if !(c >= '0' && c <= '9') {
            assert(!is_digit(s[i - from]));
            return false;
        }
        i += 1;
    }
    true
}

/// Tells whether a text spells a decimal number.
pub fn is_decimal_text(text: &str) -> (b: bool)
    ensures
        b == is_decimal(text@),
{
    let chars = chars_of(text);
    let end = chars.len();
    let negative = end > 0 && chars[0] == '-';
    let start: usize = if negative {
        1
    } else {
        0
    };
    let e = find(&chars, start, end, 'e');
    let dot = find(&chars, start, e, '.');
    if !digits_in(&chars, start, dot) {
        return false;
    }
    if dot < e && !digits_in(&chars, dot + 1, e) {
        return false;
    }
    if e < end {
        let ghost power = chars@.subrange(e + 1, end as int);
        if e + 1 < end && chars[e + 1] == '-' {
            assert(power.skip(1) =~= chars@.subrange(e + 2, end as int));
            digits_in(&chars, e + 2, end)
        } else {
            digits_in(&chars, e + 1, end)
        }
    } else {
        true
    }
}

/// The texts of a list of strings.
pub open spec fn texts(lines: Seq<String>) -> Seq<Seq<char>> {
    lines.map_values(|s: String| s@)
}

/// A line without the carriage return that may stand at its end.
pub open spec fn without_return(line: Seq<char>) -> Seq<char> {
    if line.len() > 0 && line.last() == '\r' {
        line.drop_last()
    } else {
        line
    }
}

/// The lines of a text. A line ends at a line feed; the line feed, and a
/// carriage return just before it, are no part of the line. What follows
/// the last line feed is a line too, unless it is empty.
pub open spec fn lines_of(text: Seq<char>) -> Seq<Seq<char>>
    decreases text.len(),
{
    if text.len() == 0 {
        Seq::empty()
    } else {
        let n = index_of(text, '\n');
        if 0 <= n < text.len() {
            seq![without_return(text.take(n))] + lines_of(text.skip(n + 1))
        } else {
            seq![text]
        }
    }
}

/// Splits a text into its lines.
pub fn split_lines(source: &str) -> (lines: Vec<String>)
    ensures
        texts(lines@) == lines_of(source@),
{
    let chars = chars_of(source);
    let ghost text = chars@;
    let mut lines: Vec<String> = Vec::new();
    let mut start: usize = 0;
    let mut i: usize = 0;
    assert(text.skip(0) =~= text);
    assert(texts(lines@) =~= Seq::<Seq<char>>::empty());
    while i < chars.len()
        invariant
            start <= i <= chars@.len(),
            text == chars@,
            forall|j: int| start <= j < i ==> text[j] != '\n',
            lines_of(text) == texts(lines@) + lines_of(text.skip(start as int)),
        decreases chars@.len() - i,
    {
        if chars[i] == '\n' {
            let stop = if i > start && chars[i - 1] == '\r' {
                i - 1
            } else {
                i
            };
            let line = string_of(&chars, start, stop);
            proof {
                let rest = text.skip(start as int);
                lemma_index_of_is(rest, '\n', i - start);
                assert(rest.take(i - start) =~= text.subrange(start as int, i as int));
                assert(without_return(text.subrange(start as int, i as int)) =~= line@);
                assert(rest.skip(i - start + 1) =~= text.skip(i + 1));
                assert(texts(lines@.push(line)) =~= texts(lines@) + seq![line@]);
            }
            lines.push(line);
            start = i + 1;
        }
        i += 1;
    }
    if start < chars.len() {
        let line = string_of(&chars, start, chars.len());
        proof {
            let rest = text.skip(start as int);
            lemma_index_of_is(rest, '\n', rest.len() as int);
            assert(rest =~= text.subrange(start as int, text.len() as int));
            assert(texts(lines@.push(line)) =~= texts(lines@) + seq![line@]);
        }
        lines.push(line);
    } else {
        assert(text.skip(start as int).len() == 0);
    }
    lines
}

/// The digit that stands for a number below ten.
pub open spec fn digit_char(d: nat) -> char {
    ((48 + d) as u8) as char
}

/// The digits that spell a number in base ten, without leading zeros.
pub open spec fn digits_of(n: nat) -> Seq<char>
    decreases n,
{
    if n < 10 {
        seq![digit_char(n)]
    } else {
        digits_of(n / 10).push(digit_char(n % 10))
    }
}

/// The digits of a number spell the number.
pub proof fn lemma_digits_of(n: nat)
    ensures
        number_of(digits_of(n), n) == Some(n),
    decreases n,
{
    let s = digits_of(n);
    if n < 10 {
        assert(s.drop_last() =~= Seq::<char>::empty());
        assert(digits_value(s) == digits_value(s.drop_last()) * 10 + digit_value(s.last()));
    } else {
        lemma_digits_of(n / 10);
        assert(s.drop_last() =~= digits_of(n / 10));
        assert(digits_value(s) == digits_value(s.drop_last()) * 10 + digit_value(s.last()));
        assert forall|i: int| 0 <= i < s.len() implies is_digit(#[trigger] s[i]) by {
            if i < s.len() - 1 {
                assert(is_digit(digits_of(n / 10)[i]));
            }
        }
    }
}

/// Writes a number in base ten.
pub fn decimal_text(n: u64) -> (text: String)
    ensures
        text@ == digits_of(n as nat),
{
    let mut rev: Vec<char> = Vec::new();
    rev.push((48u8 + (n % 10) as u8) as char);
    let mut m: u64 = n / 10;
    while m > 0
        invariant
            digits_of(n as nat) == (if m > 0 {
                digits_of(m as nat)
            } else {
                Seq::<char>::empty()
            }) + rev@.reverse(),
        decreases m,
    {
        let ghost before = rev@;
        let d = (48u8 + (m % 10) as u8) as char;
        rev.push(d);
        assert(rev@.reverse() =~= seq![d] + before.reverse());
        assert(digits_of(m as nat) =~= (if m / 10 > 0 {
            digits_of((m / 10) as nat)
        } else {
            Seq::<char>::empty()
        }) + seq![d]);
        m = m / 10;
    }
    let mut text = String::new();
    let mut i: usize = rev.len();
    while i > 0
        invariant
            i <= rev@.len(),
            text@ == rev@.reverse().take(rev@.len() - i),
        decreases i,
    {
        i -= 1;
        push_char(&mut text, rev[i]);
        assert(text@ =~= rev@.reverse().take(rev@.len() - i));
    }
    assert(text@ =~= rev@.reverse());
    text
}

} // verus!
