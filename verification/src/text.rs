//! Reading and writing short pieces of text.

use vstd::prelude::*;

verus! {

/// `String::push` appends the character it is given to the end of the string.
pub assume_specification[ String::push ](s: &mut String, c: char)
    ensures
        final(s)@ == old(s)@.push(c),
;

/// The decimal digit of a value below ten.
pub open spec fn digit(d: nat) -> char {
    (48 + d) as char
}

/// A number in decimal, without leading zeros.
pub open spec fn decimal(n: nat) -> Seq<char>
    decreases n,
{
    if n < 10 {
        seq![digit(n)]
    } else {
        decimal(n / 10).push(digit(n % 10))
    }
}

/// Whether a character is one of the ten ASCII digits.
pub open spec fn is_digit(c: char) -> bool {
    '0' <= c && c <= '9'
}

pub open spec fn digit_value(c: char) -> nat {
    (c as int - 48) as nat
}

/// The value of a string of digits, most significant first.
pub open spec fn value(s: Seq<char>) -> nat
    decreases s.len(),
{
    if s.len() == 0 {
        0
    } else {
        value(s.drop_last()) * 10 + digit_value(s.last())
    }
}

pub open spec fn all_digits(s: Seq<char>) -> bool {
    forall|i: int| 0 <= i < s.len() ==> is_digit(#[trigger] s[i])
}

/// The unsigned 64-bit number that a string spells: an optional `+`, then digits and nothing
/// else, worth no more than the type can hold.
pub open spec fn spelled(s: Seq<char>) -> Option<u64> {
    let body = if s.len() > 0 && s[0] == '+' { s.drop_first() } else { s };
    if body.len() > 0 && all_digits(body) && value(body) <= u64::MAX {
        Some(value(body) as u64)
    } else {
        None
    }
}

/// Whether a character has the Unicode property `White_Space`.
pub open spec fn is_white(c: char) -> bool {
    ||| '\u{9}' <= c && c <= '\u{d}'
    ||| c == '\u{20}'
    ||| c == '\u{85}'
    ||| c == '\u{a0}'
    ||| c == '\u{1680}'
    ||| '\u{2000}' <= c && c <= '\u{200a}'
    ||| c == '\u{2028}'
    ||| c == '\u{2029}'
    ||| c == '\u{202f}'
    ||| c == '\u{205f}'
    ||| c == '\u{3000}'
}

pub open spec fn trimmed_start(s: Seq<char>) -> Seq<char>
    decreases s.len(),
{
    if s.len() > 0 && is_white(s[0]) {
        trimmed_start(s.drop_first())
    } else {
        s
    }
}

pub open spec fn trimmed_end(s: Seq<char>) -> Seq<char>
    decreases s.len(),
{
    if s.len() > 0 && is_white(s.last()) {
        trimmed_end(s.drop_last())
    } else {
        s
    }
}

/// The string without the white space at its ends.
pub open spec fn trimmed(s: Seq<char>) -> Seq<char> {
    trimmed_end(trimmed_start(s))
}

/// Where `c` first stands in `s`, or the length of `s` where it does not.
pub open spec fn find(s: Seq<char>, c: char) -> int
    decreases s.len(),
{
    if s.len() == 0 || s[0] == c {
        0
    } else {
        1 + find(s.drop_first(), c)
    }
}

/// The pieces of `s` between occurrences of `c`; always at least one.
pub open spec fn pieces(s: Seq<char>, c: char) -> Seq<Seq<char>>
    decreases s.len(),
    via pieces_decreases
{
    if find(s, c) == s.len() {
        seq![s]
    } else {
        seq![s.take(find(s, c))] + pieces(s.skip(find(s, c) + 1), c)
    }
}

#[via_fn]
proof fn pieces_decreases(s: Seq<char>, c: char) {
    lemma_find(s, c);
}

/// `find` names the first occurrence.
pub proof fn lemma_find(s: Seq<char>, c: char)
    ensures
        0 <= find(s, c) <= s.len(),
        find(s, c) < s.len() ==> s[find(s, c)] == c,
        forall|i: int| 0 <= i < find(s, c) ==> s[i] != c,
    decreases s.len(),
{
    if s.len() > 0 && s[0] != c {
        lemma_find(s.drop_first(), c);
        assert forall|i: int| 0 <= i < find(s, c) implies s[i] != c by {
            if i > 0 {
                assert(s[i] == s.drop_first()[i - 1]);
            }
        }
    }
}

/// Only the first occurrence is what `find` names.
pub proof fn lemma_find_is(s: Seq<char>, c: char, at: int)
    requires
        0 <= at <= s.len(),
        at < s.len() ==> s[at] == c,
        forall|i: int| 0 <= i < at ==> s[i] != c,
    ensures
        find(s, c) == at,
{
    lemma_find(s, c);
}

proof fn lemma_value_push(s: Seq<char>, c: char)
    ensures
        value(s.push(c)) == value(s) * 10 + digit_value(c),
{
    assert(s.push(c).drop_last() == s);
}

proof fn lemma_value_grows(s: Seq<char>, i: int)
    requires
        0 <= i <= s.len(),
    ensures
        value(s.take(i)) <= value(s),
    decreases s.len() - i,
{
    if i == s.len() {
        assert(s.take(i) == s);
    } else {
        lemma_value_grows(s, i + 1);
        assert(s.take(i + 1) == s.take(i).push(s[i]));
        lemma_value_push(s.take(i), s[i]);
    }
}

/// Trimming leaves no white space at either end, and takes nothing but white space away.
pub proof fn law_trimmed(s: Seq<char>)
    ensures
        trimmed(s).len() > 0 ==> !is_white(trimmed(s)[0]) && !is_white(trimmed(s).last()),
        exists|i: int, j: int|
            0 <= i <= j <= s.len() && trimmed(s) == #[trigger] s.subrange(i, j) && (forall|k: int|
                (0 <= k < i || j <= k < s.len()) ==> is_white(#[trigger] s[k])),
{
    let t = trimmed_start(s);
    let i = lemma_trimmed_start(s);
    let j = lemma_trimmed_end(t);
    assert(t.subrange(0, j) == s.subrange(i, i + j));
    assert forall|k: int| (0 <= k < i || i + j <= k < s.len()) implies is_white(#[trigger] s[k]) by {
        if k >= i {
            assert(s[k] == t[k - i]);
        }
    }
}

/// Trimming twice is trimming once.
pub proof fn law_trim_twice(s: Seq<char>)
    ensures
        trimmed(trimmed(s)) == trimmed(s),
{
    law_trimmed(s);
}

proof fn lemma_trimmed_start(s: Seq<char>) -> (i: int)
    ensures
        0 <= i <= s.len(),
        trimmed_start(s) == s.subrange(i, s.len() as int),
        i < s.len() ==> !is_white(s[i]),
        forall|k: int| 0 <= k < i ==> is_white(#[trigger] s[k]),
    decreases s.len(),
{
    if s.len() > 0 && is_white(s[0]) {
        let rest = s.drop_first();
        let i = lemma_trimmed_start(rest);
        assert(rest.subrange(i, rest.len() as int) == s.subrange(i + 1, s.len() as int));
        assert forall|k: int| 0 <= k < i + 1 implies is_white(#[trigger] s[k]) by {
            if k > 0 {
                assert(s[k] == rest[k - 1]);
            }
        }
        i + 1
    } else {
        assert(s.subrange(0, s.len() as int) == s);
        0
    }
}

proof fn lemma_trimmed_end(s: Seq<char>) -> (j: int)
    ensures
        0 <= j <= s.len(),
        trimmed_end(s) == s.subrange(0, j),
        j > 0 ==> !is_white(s[j - 1]),
        forall|k: int| j <= k < s.len() ==> is_white(#[trigger] s[k]),
    decreases s.len(),
{
    if s.len() > 0 && is_white(s.last()) {
        let rest = s.drop_last();
        let j = lemma_trimmed_end(rest);
        assert(rest.subrange(0, j) == s.subrange(0, j));
        assert forall|k: int| j <= k < s.len() implies is_white(#[trigger] s[k]) by {
            if k < rest.len() {
                assert(s[k] == rest[k]);
            }
        }
        j
    } else {
        assert(s.subrange(0, s.len() as int) == s);
        s.len() as int
    }
}

/// A number reads back from its decimal form.
pub proof fn law_decimal_reads_back(n: u64)
    ensures
        spelled(decimal(n as nat)) == Some(n),
{
    lemma_decimal(n as nat);
}

proof fn lemma_decimal(n: nat)
    ensures
        decimal(n).len() > 0,
        all_digits(decimal(n)),
        value(decimal(n)) == n,
    decreases n,
{
    if n < 10 {
        assert(decimal(n).drop_last() == Seq::<char>::empty());
        reveal_with_fuel(value, 2);
    } else {
        lemma_decimal(n / 10);
        lemma_value_push(decimal(n / 10), digit(n % 10));
    }
}

/// `s` without the white space at its ends.
pub fn trim<'a>(s: &'a str) -> (t: &'a str)
    ensures
        t@ == trimmed(s@),
{
    let len: usize = s.unicode_len();
    let mut from: usize = 0;
    assert(s@.skip(0) == s@);
    while from < len && is_whitespace(s.get_char(from))
        invariant
            from <= len == s@.len(),
            trimmed_start(s@) == trimmed_start(s@.skip(from as int)),
        decreases len - from,
    {
        assert(s@.skip(from as int).drop_first() == s@.skip(from + 1));
        from = from + 1;
    }
    assert(trimmed_start(s@) == s@.skip(from as int));
    let mut to: usize = len;
    assert(s@.subrange(from as int, len as int) == s@.skip(from as int));
    while from < to && is_whitespace(s.get_char(to - 1))
        invariant
            from <= to <= len == s@.len(),
            trimmed(s@) == trimmed_end(s@.subrange(from as int, to as int)),
        decreases to,
    {
        assert(s@.subrange(from as int, to as int).drop_last() == s@.subrange(
            from as int,
            to - 1,
        ));
        to = to - 1;
    }
    s.substring_char(from, to)
}

/// Whether `c` is white space.
pub fn is_whitespace(c: char) -> (white: bool)
    ensures
        white == is_white(c),
{
    ('\u{9}' <= c && c <= '\u{d}') || c == '\u{20}' || c == '\u{85}' || c == '\u{a0}' || c
        == '\u{1680}' || ('\u{2000}' <= c && c <= '\u{200a}') || c == '\u{2028}' || c == '\u{2029}'
        || c == '\u{202f}' || c == '\u{205f}' || c == '\u{3000}'
}

/// The number that `s` spells, as far as an unsigned 64-bit number goes.
pub fn parse(s: &str) -> (n: Option<u64>)
    ensures
        n == spelled(s@),
{
    let len: usize = s.unicode_len();
    let start: usize = if len > 0 && s.get_char(0) == '+' { 1 } else { 0 };
    let ghost body = if s@.len() > 0 && s@[0] == '+' { s@.drop_first() } else { s@ };
    assert(body == s@.skip(start as int));
    if start == len {
        return None;
    }
    let mut n: u64 = 0;
    let mut i: usize = start;
    while i < len
        invariant
            start <= i <= len == s@.len(),
            start < len,
            body == s@.skip(start as int),
            all_digits(body.take(i - start)),
            n == value(body.take(i - start)),
            spelled(s@) == (if body.len() > 0 && all_digits(body) && value(body) <= u64::MAX {
                Some(value(body) as u64)
            } else {
                None
            }),
        decreases len - i,
    {
        let c = s.get_char(i);
        proof {
            assert(c == body[i - start]);
            assert(body.take(i - start + 1) == body.take(i - start).push(c));
            lemma_value_push(body.take(i - start), c);
            lemma_value_grows(body, i - start + 1);
        }
        if c < '0' || '9' < c {
            assert(!is_digit(body[i - start]));
            return None;
        }
        let d: u64 = (c as u64) - 48;
        match n.checked_mul(10) {
            None => return None,
            Some(tens) => match tens.checked_add(d) {
                None => return None,
                Some(sum) => n = sum,
            },
        }
        i = i + 1;
    }
    assert(body.take(len - start) == body);
    Some(n)
}

/// Appends `n` in decimal.
pub fn push_decimal(out: &mut String, n: u64)
    ensures
        final(out)@ == old(out)@ + decimal(n as nat),
    decreases n,
{
    if n >= 10 {
        push_decimal(out, n / 10);
    }
    let d: u8 = (n % 10) as u8;
    out.push((48 + d) as char);
    assert(out@ == old(out)@ + decimal(n as nat));
}

/// Cuts `s` at every `c`.
pub fn split<'a>(s: &'a str, c: char) -> (parts: Vec<&'a str>)
    ensures
        parts@.map_values(|part: &'a str| part@) == pieces(s@, c),
{
    let len: usize = s.unicode_len();
    let mut parts: Vec<&'a str> = Vec::new();
    let mut start: usize = 0;
    let mut i: usize = 0;
    assert(s@.skip(0) == s@);
    assert(parts@.map_values(|part: &'a str| part@) + pieces(s@, c) == pieces(s@, c));
    while i < len
        invariant
            start <= i <= len == s@.len(),
            forall|k: int| start <= k < i ==> s@[k] != c,
            parts@.map_values(|part: &'a str| part@) + pieces(s@.skip(start as int), c) == pieces(
                s@,
                c,
            ),
        decreases len - i,
    {
        if s.get_char(i) == c {
            let part = s.substring_char(start, i);
            proof {
                let rest = s@.skip(start as int);
                lemma_find_is(rest, c, i - start);
                assert(rest.take(i - start) == part@);
                assert(rest.skip(i - start + 1) == s@.skip(i + 1));
                let before = parts@.map_values(|part: &'a str| part@);
                assert(parts@.push(part).map_values(|part: &'a str| part@) == before.push(part@));
                assert(before.push(part@) + pieces(s@.skip(i + 1), c) == before + pieces(rest, c));
            }
            parts.push(part);
            start = i + 1;
        }
        i = i + 1;
    }
    let part = s.substring_char(start, len);
    proof {
        let rest = s@.skip(start as int);
        assert(rest == part@);
        lemma_find_is(rest, c, rest.len() as int);
        let before = parts@.map_values(|part: &'a str| part@);
        assert(parts@.push(part).map_values(|part: &'a str| part@) == before.push(part@));
        assert(before + seq![part@] == before.push(part@));
    }
    parts.push(part);
    parts
}

/// Cuts `s` at the first `c`, if there is one.
pub fn split_once<'a>(s: &'a str, c: char) -> (halves: Option<(&'a str, &'a str)>)
    ensures
        halves is Some <==> find(s@, c) < s@.len(),
        halves matches Some(h) ==> h.0@ == s@.take(find(s@, c)) && h.1@ == s@.skip(
            find(s@, c) + 1,
        ),
{
    let len: usize = s.unicode_len();
    let mut i: usize = 0;
    while i < len
        invariant
            i <= len == s@.len(),
            forall|k: int| 0 <= k < i ==> s@[k] != c,
        decreases len - i,
    {
        if s.get_char(i) == c {
            proof {
                lemma_find_is(s@, c, i as int);
                assert(s@.take(i as int) == s@.subrange(0, i as int));
                assert(s@.skip(i + 1) == s@.subrange(i + 1, len as int));
            }
            return Some((s.substring_char(0, i), s.substring_char(i + 1, len)));
        }
        i = i + 1;
    }
    proof {
        lemma_find_is(s@, c, len as int);
    }
    None
}

/// Numbers are written in the ten digits, most significant first and without leading zeros.
pub proof fn law_decimal_digits(n: nat)
    ensures
        n < 10 ==> decimal(n) == seq!["0123456789"@[n as int]],
        n >= 10 ==> decimal(n) == decimal(n / 10) + decimal(n % 10),
        n > 0 ==> decimal(n).len() > 0 && decimal(n)[0] != '0',
    decreases n,
{
    reveal_strlit("0123456789");
    if n >= 10 {
        law_decimal_digits(n / 10);
        assert(decimal(n)[0] == decimal(n / 10)[0]);
    }
}

/// A string of digits is the decimal form of its value, unless it has leading zeros.
pub proof fn law_digits_are_a_decimal(s: Seq<char>)
    requires
        s.len() > 0,
        forall|i: int| 0 <= i < s.len() ==> '0' <= #[trigger] s[i] && s[i] <= '9',
        s[0] != '0' || s.len() == 1,
    ensures
        decimal(value(s)) == s,
    decreases s.len(),
{
    let t = s.drop_last();
    if t.len() == 0 {
        assert(value(t) == 0);
        assert(decimal(value(s)) == s);
    } else {
        assert forall|i: int| 0 <= i < t.len() implies '0' <= #[trigger] t[i] && t[i] <= '9' by {
            assert(t[i] == s[i]);
        }
        assert(t[0] == s[0]);
        law_digits_are_a_decimal(t);
        lemma_value_positive(t);
        assert(value(s) / 10 == value(t));
        assert(decimal(value(s)) == s);
    }
}

proof fn lemma_value_positive(s: Seq<char>)
    requires
        s.len() > 0,
        forall|i: int| 0 <= i < s.len() ==> '0' <= #[trigger] s[i] && s[i] <= '9',
        s[0] != '0',
    ensures
        value(s) > 0,
    decreases s.len(),
{
    let t = s.drop_last();
    if t.len() == 0 {
        assert(value(t) == 0);
    } else {
        assert forall|i: int| 0 <= i < t.len() implies '0' <= #[trigger] t[i] && t[i] <= '9' by {
            assert(t[i] == s[i]);
        }
        assert(t[0] == s[0]);
        lemma_value_positive(t);
    }
}

/// A number is read where it is written in decimal and fits 64 bits; one that does not fit is not
/// read at all.
pub proof fn law_decimals_are_read(n: nat)
    ensures
        n <= 0xffff_ffff_ffff_ffff ==> spelled(decimal(n)) == Some(n as u64),
        n > 0xffff_ffff_ffff_ffff ==> spelled(decimal(n)) is None,
{
    lemma_decimal(n);
}

/// A sign in front and zeros in front change nothing, and with anything but digits after that
/// there is no number.
pub proof fn law_what_is_a_number(s: Seq<char>, i: int)
    ensures
        s.len() > 0 && s[0] != '+' ==> spelled(seq!['+'] + s) == spelled(s),
        s.len() > 0 && '0' <= s[0] && s[0] <= '9' ==> spelled(seq!['0'] + s) == spelled(s),
        0 < i < s.len() && !('0' <= s[i] && s[i] <= '9') ==> spelled(s) is None,
        s.len() > 0 && s[0] != '+' && !('0' <= s[0] && s[0] <= '9') ==> spelled(s) is None,
        s.len() == 0 || s == seq!['+'] ==> spelled(s) is None,
{
    assert((seq!['+'] + s).drop_first() == s);
    let zero = seq!['0'] + s;
    if s.len() > 0 && '0' <= s[0] && s[0] <= '9' {
        lemma_leading_zero(s);
        assert forall|k: int| 0 <= k < s.len() implies s[k] == #[trigger] zero[k + 1] by {
        }
        assert(all_digits(s) ==> all_digits(zero)) by {
            if all_digits(s) {
                assert forall|k: int| 0 <= k < zero.len() implies is_digit(#[trigger] zero[k]) by {
                    if k > 0 {
                        assert(zero[k] == s[k - 1]);
                    }
                }
            }
        }
        assert(all_digits(zero) ==> all_digits(s)) by {
            if all_digits(zero) {
                assert forall|k: int| 0 <= k < s.len() implies is_digit(#[trigger] s[k]) by {
                    assert(s[k] == zero[k + 1]);
                }
            }
        }
    }
    if 0 < i < s.len() && !('0' <= s[i] && s[i] <= '9') {
        assert(!is_digit(s[i]));
        assert(!is_digit(s.drop_first()[i - 1]));
    }
    if s == seq!['+'] {
        assert(s.drop_first().len() == 0);
    }
}

proof fn lemma_leading_zero(s: Seq<char>)
    ensures
        value(seq!['0'] + s) == value(s),
    decreases s.len(),
{
    let t = seq!['0'] + s;
    if s.len() == 0 {
        assert(t.drop_last() == Seq::<char>::empty());
        assert(value(t.drop_last()) == 0);
    } else {
        lemma_leading_zero(s.drop_last());
        assert(t.drop_last() == seq!['0'] + s.drop_last());
        assert(t.last() == s.last());
    }
}

/// Pieces with a separator between them.
pub open spec fn joined(parts: Seq<Seq<char>>, c: char) -> Seq<char>
    decreases parts.len(),
{
    if parts.len() == 0 {
        Seq::empty()
    } else if parts.len() == 1 {
        parts[0]
    } else {
        parts[0] + seq![c] + joined(parts.drop_first(), c)
    }
}

/// The pieces of a string, put together again with the separator between them, are the string,
/// and none of them holds a separator.
pub proof fn law_pieces_join_back(s: Seq<char>, c: char)
    ensures
        pieces(s, c).len() > 0,
        joined(pieces(s, c), c) == s,
        forall|i: int|
            0 <= i < pieces(s, c).len() ==> !(#[trigger] pieces(s, c)[i]).contains(c),
    decreases s.len(),
{
    lemma_find(s, c);
    let at = find(s, c);
    if at == s.len() {
        assert(pieces(s, c) == seq![s]);
    } else {
        let rest = s.skip(at + 1);
        law_pieces_join_back(rest, c);
        let all = pieces(s, c);
        assert(all.drop_first() == pieces(rest, c));
        assert(all[0] == s.take(at));
        assert(s.take(at) + seq![c] + rest == s);
        assert forall|i: int| 0 <= i < all.len() implies !(#[trigger] all[i]).contains(c) by {
            if i > 0 {
                assert(all[i] == pieces(rest, c)[i - 1]);
            }
        }
    }
}

/// Different numbers never share a decimal form.
pub proof fn law_decimal_tells_apart(m: nat, n: nat)
    ensures
        decimal(m) == decimal(n) <==> m == n,
{
    lemma_decimal(m);
    lemma_decimal(n);
}

} // verus!
