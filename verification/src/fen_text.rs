//! Text utilities for the FEN codec: separator splitting, decimal integers,
//! and building a `String` from accumulated characters.

use vstd::prelude::*;

verus! {

/// Splitting a character sequence at every occurrence of `sep`, as Rust's
/// `str::split` does: the result is never empty, and separators at the ends
/// produce empty fields.
pub open spec fn spec_split(s: Seq<char>, sep: char) -> Seq<Seq<char>>
    decreases s.len(),
{
    if s.len() == 0 {
        seq![Seq::<char>::empty()]
    } else if s[0] == sep {
        seq![Seq::<char>::empty()] + spec_split(s.drop_first(), sep)
    } else {
        let rest = spec_split(s.drop_first(), sep);
        seq![seq![s[0]] + rest[0]] + rest.drop_first()
    }
}

/// Splitting never yields an empty field list.
pub proof fn lemma_split_nonempty(s: Seq<char>, sep: char)
    ensures
        spec_split(s, sep).len() >= 1,
    decreases s.len(),
{
    if s.len() == 0 {
    } else if s[0] == sep {
    } else {
        lemma_split_nonempty(s.drop_first(), sep)
    }
}

/// If the first `i` characters of `s` are free of the separator, the first
/// field of the split is `s` up to the separator at `i`, or all of `s` if
/// `i` reaches its end.
pub proof fn lemma_split_prefix(s: Seq<char>, sep: char, i: int)
    requires
        0 <= i <= s.len(),
        forall|j: int| 0 <= j < i ==> s[j] != sep,
    ensures
        i < s.len() && s[i] == sep ==> spec_split(s, sep) =~~= seq![s.take(i)] + spec_split(
            s.skip(i + 1),
            sep,
        ),
        i == s.len() ==> spec_split(s, sep) =~~= seq![s],
    decreases i,
{
    lemma_split_nonempty(s, sep);
    if i == 0 {
        if s.len() == 0 {
            assert(spec_split(s, sep) =~~= seq![s]);
        } else if s[0] == sep {
            assert(s.take(0) =~= Seq::<char>::empty());
            assert(s.skip(1) =~= s.drop_first());
        }
    } else {
        let s2 = s.drop_first();
        lemma_split_nonempty(s2, sep);
        lemma_split_prefix(s2, sep, i - 1);
        let rest = spec_split(s2, sep);
        if i < s.len() && s[i] == sep {
            assert(s2[i - 1] == sep);
            assert(s2.take(i - 1) =~= s.take(i).drop_first());
            assert(s2.skip(i) =~= s.skip(i + 1));
            assert(rest[0] =~= s.take(i).drop_first());
            assert(seq![s[0]] + rest[0] =~= s.take(i));
            assert(rest.drop_first() =~~= spec_split(s.skip(i + 1), sep));
        } else if i == s.len() {
            assert(rest[0] =~= s2);
            assert(seq![s[0]] + s2 =~= s);
            assert(rest.drop_first() =~~= Seq::<Seq<char>>::empty());
        }
    }
}

/// Splitting a joined text at its separator recovers the first field: if
/// `a` is free of the separator, the split of `a + sep + b` is `a` followed
/// by the split of `b`.
pub proof fn lemma_split_join(a: Seq<char>, b: Seq<char>, sep: char)
    requires
        forall|j: int| 0 <= j < a.len() ==> a[j] != sep,
    ensures
        spec_split(a + seq![sep] + b, sep) =~~= seq![a] + spec_split(b, sep),
{
    let s = a + seq![sep] + b;
    lemma_split_prefix(s, sep, a.len() as int);
    assert(s.take(a.len() as int) =~= a);
    assert(s.skip(a.len() as int + 1) =~= b);
}

/// Splitting a separator-free text yields that one field.
pub proof fn lemma_split_single(a: Seq<char>, sep: char)
    requires
        forall|j: int| 0 <= j < a.len() ==> a[j] != sep,
    ensures
        spec_split(a, sep) =~~= seq![a],
{
    lemma_split_prefix(a, sep, a.len() as int);
}

/// Every character of a serialized number is a decimal digit.
pub proof fn lemma_uint_chars_digits(n: int)
    ensures
        spec_all_digits(spec_uint_chars(n)),
    decreases n,
{
    if n < 10 {
        assert(spec_uint_chars(n) =~= seq![
            spec_digit_char(
                if n < 0 {
                    0
                } else {
                    n
                },
            ),
        ]);
    } else {
        lemma_uint_chars_digits(n / 10);
        let s0 = spec_uint_chars(n / 10);
        let s = spec_uint_chars(n);
        assert(s == s0.push(spec_digit_char(n % 10)));
        assert(forall|i: int| 0 <= i < s0.len() ==> s[i] == s0[i]);
        assert(spec_is_digit(s.last()));
    }
}

/// Splits `s` at every occurrence of `sep`.
pub fn split_str<'a>(s: &'a str, sep: char) -> (r: Vec<&'a str>)
    ensures
        r.deep_view() == spec_split(s@, sep),
{
    let len = s.unicode_len();
    let mut r: Vec<&'a str> = Vec::new();
    let mut start: usize = 0;
    let mut i: usize = 0;
    proof {
        assert(s@.skip(0) =~= s@);
    }
    while i < len
        invariant
            start <= i <= len,
            len == s@.len(),
            forall|j: int| start <= j < i ==> s@[j] != sep,
            r.deep_view() + spec_split(s@.skip(start as int), sep) =~~= spec_split(s@, sep),
        decreases len - i,
    {
        let c = s.get_char(i);
        if c == sep {
            let field = s.substring_char(start, i);
            let ghost pre = r.deep_view();
            r.push(field);
            proof {
                assert(r.deep_view() =~~= pre.push(field@));
                let tail = s@.skip(start as int);
                assert(forall|j: int| 0 <= j < i - start ==> tail[j] != sep);
                assert(tail[i - start as int] == sep);
                lemma_split_prefix(tail, sep, i - start as int);
                assert(tail.take(i - start as int) =~= s@.subrange(start as int, i as int));
                assert(field@ == s@.subrange(start as int, i as int));
                assert(tail.skip(i - start as int + 1) =~= s@.skip(i as int + 1));
                assert(r.deep_view() + spec_split(s@.skip(i as int + 1), sep) =~~= spec_split(
                    s@,
                    sep,
                ));
            }
            start = i + 1;
        }
        i = i + 1;
    }
    let field = s.substring_char(start, len);
    let ghost pre = r.deep_view();
    r.push(field);
    proof {
        assert(r.deep_view() =~~= pre.push(field@));
        let tail = s@.skip(start as int);
        lemma_split_prefix(tail, sep, tail.len() as int);
        assert(field@ =~= tail);
        assert(r.deep_view() =~~= spec_split(s@, sep));
    }
    r
}

/// A decimal digit.
pub open spec fn spec_is_digit(c: char) -> bool {
    '0' <= c <= '9'
}

/// The value of a decimal digit.
pub open spec fn spec_digit_val(c: char) -> int {
    (c as u32) as int - 48
}

/// The digit naming a value below 10.
pub open spec fn spec_digit_char(d: int) -> char {
    if d == 0 {
        '0'
    } else if d == 1 {
        '1'
    } else if d == 2 {
        '2'
    } else if d == 3 {
        '3'
    } else if d == 4 {
        '4'
    } else if d == 5 {
        '5'
    } else if d == 6 {
        '6'
    } else if d == 7 {
        '7'
    } else if d == 8 {
        '8'
    } else {
        '9'
    }
}

/// The digit naming a value below 10.
pub fn digit_to_char(d: u32) -> (c: char)
    requires
        d <= 9,
    ensures
        c == spec_digit_char(d as int),
{
    match d {
        0 => '0',
        1 => '1',
        2 => '2',
        3 => '3',
        4 => '4',
        5 => '5',
        6 => '6',
        7 => '7',
        8 => '8',
        _ => '9',
    }
}

/// The value of a sequence of decimal digits, most significant first.
pub open spec fn spec_digits_val(s: Seq<char>) -> int
    decreases s.len(),
{
    if s.len() == 0 {
        0
    } else {
        spec_digits_val(s.drop_last()) * 10 + spec_digit_val(s.last())
    }
}

pub open spec fn spec_all_digits(s: Seq<char>) -> bool {
    forall|i: int| 0 <= i < s.len() ==> spec_is_digit(#[trigger] s[i])
}

/// What parsing an unsigned decimal integer field yields: at least one
/// character, all digits.
pub open spec fn spec_parse_uint(s: Seq<char>) -> Option<int> {
    if s.len() >= 1 && spec_all_digits(s) {
        Some(spec_digits_val(s))
    } else {
        None
    }
}

/// A digit string's value never shrinks when digits are appended.
proof fn lemma_digits_val_nonneg(s: Seq<char>)
    requires
        spec_all_digits(s),
    ensures
        spec_digits_val(s) >= 0,
    decreases s.len(),
{
    if s.len() > 0 {
        assert(spec_all_digits(s.drop_last()));
        lemma_digits_val_nonneg(s.drop_last());
    }
}

/// Parses an unsigned decimal integer of at most `max`; a value above `max`
/// or any non-digit text fails.
pub fn parse_uint_capped(s: &str, max: u32) -> (r: Option<u32>)
    requires
        max <= 65535,
    ensures
        r == (match spec_parse_uint(s@) {
            Some(v) => if v <= max as int {
                Some(v as u32)
            } else {
                None::<u32>
            },
            None => None::<u32>,
        }),
        r matches Some(h) ==> h <= max && spec_parse_uint(s@) == Some(h as int),
{
    let len = s.unicode_len();
    if len == 0 {
        return None;
    }
    let mut acc: u32 = 0;
    let mut over = false;
    let mut i: usize = 0;
    proof {
        assert(s@.take(0) =~= Seq::<char>::empty());
    }
    while i < len
        invariant
            i <= len,
            len == s@.len(),
            spec_all_digits(s@.take(i as int)),
            !over ==> acc as int == spec_digits_val(s@.take(i as int)) && acc <= 65535,
            over ==> spec_digits_val(s@.take(i as int)) > 65535,
            max <= 65535,
        decreases len - i,
    {
        let c = s.get_char(i);
        if c < '0' || c > '9' {
            return None;
        }
        let d: u32 = c as u32 - 48;
        proof {
            assert(s@.take(i as int + 1).drop_last() =~= s@.take(i as int));
            assert(s@.take(i as int + 1).last() == c);
            lemma_digits_val_nonneg(s@.take(i as int));
        }
        if over {
        } else if acc > 6553 || (acc == 6553 && d > 5) {
            over = true;
        } else {
            acc = acc * 10 + d;
        }
        i = i + 1;
    }
    proof {
        assert(s@.take(len as int) =~= s@);
    }
    if over || acc > max {
        return None;
    }
    Some(acc)
}

/// The decimal digits of a non-negative number, most significant first.
pub open spec fn spec_uint_chars(n: int) -> Seq<char>
    decreases n,
{
    if n < 10 {
        seq![spec_digit_char(if n < 0 {
            0
        } else {
            n
        })]
    } else {
        spec_uint_chars(n / 10).push(spec_digit_char(n % 10))
    }
}

/// Appends the decimal digits of `n`.
pub fn push_uint_chars(n: u32, out: &mut Vec<char>)
    ensures
        final(out)@ == old(out)@ + spec_uint_chars(n as int),
    decreases n,
{
    if n < 10 {
        out.push(digit_to_char(n));
        proof {
            assert(final(out)@ =~= old(out)@ + spec_uint_chars(n as int));
        }
    } else {
        push_uint_chars(n / 10, out);
        out.push(digit_to_char(n % 10));
        proof {
            assert(final(out)@ =~= old(out)@ + spec_uint_chars(n as int));
        }
    }
}

/// The decimal digits of a number parse back to the number: the codec's
/// integer fields round-trip.
pub proof fn lemma_uint_chars_parse(n: int)
    requires
        0 <= n,
    ensures
        spec_parse_uint(spec_uint_chars(n)) == Some(n),
    decreases n,
{
    if n < 10 {
        let s = spec_uint_chars(n);
        assert(s =~= seq![spec_digit_char(n)]);
        assert(spec_is_digit(s[0]));
        assert(s.drop_last() =~= Seq::<char>::empty());
        assert(spec_digits_val(s.drop_last()) == 0);
        assert(spec_digits_val(s) == spec_digits_val(s.drop_last()) * 10 + spec_digit_val(
            s.last(),
        ));
        assert(spec_digits_val(s) == n);
    } else {
        lemma_uint_chars_parse(n / 10);
        let s0 = spec_uint_chars(n / 10);
        let s = spec_uint_chars(n);
        assert(s == s0.push(spec_digit_char(n % 10)));
        assert(s.drop_last() =~= s0);
        assert(spec_is_digit(s.last()));
        assert(forall|i: int| 0 <= i < s0.len() ==> s[i] == s0[i]);
        assert(spec_all_digits(s));
        assert(spec_digits_val(s0) == n / 10);
        assert(s.last() == spec_digit_char(n % 10));
        assert(spec_digit_val(s.last()) == n % 10);
        assert(spec_digits_val(s) == spec_digits_val(s0) * 10 + spec_digit_val(s.last()));
        assert((n / 10) * 10 + n % 10 == n) by (nonlinear_arith)
            requires
                n >= 10,
        ;
        assert(spec_digits_val(s) == n);
    }
}

/// Appends every character of `s`.
pub fn push_str_chars(s: &str, out: &mut Vec<char>)
    ensures
        final(out)@ == old(out)@ + s@,
{
    let len = s.unicode_len();
    let mut i: usize = 0;
    while i < len
        invariant
            i <= len,
            len == s@.len(),
            out@ == old(out)@ + s@.take(i as int),
        decreases len - i,
    {
        out.push(s.get_char(i));
        proof {
            assert(s@.take(i as int + 1) =~= s@.take(i as int).push(s@[i as int]));
            assert(out@ =~= old(out)@ + s@.take(i as int + 1));
        }
        i = i + 1;
    }
    proof {
        assert(s@.take(len as int) =~= s@);
    }
}

/// Relies on `String`'s `FromIterator` implementation: collecting characters
/// builds the string whose characters are exactly those collected.
#[verifier::external_body]
pub fn chars_to_string(v: &Vec<char>) -> (s: String)
    ensures
        s@ == v@,
{
    v.iter().collect()
}

} // verus!
