//! Text as sequences of characters: trimming, ASCII case, splitting, decimals.

use vstd::prelude::*;
use vstd::string::{StrSliceExecFns, StringExecFns};

verus! {

/// Whether `c` has the Unicode property White_Space.
pub open spec fn is_white_space(c: char) -> bool {
    ||| 0x9 <= c as int <= 0xd
    ||| c as int == 0x20
    ||| c as int == 0x85
    ||| c as int == 0xa0
    ||| c as int == 0x1680
    ||| 0x2000 <= c as int <= 0x200a
    ||| c as int == 0x2028
    ||| c as int == 0x2029
    ||| c as int == 0x202f
    ||| c as int == 0x205f
    ||| c as int == 0x3000
}

/// `s` without its leading white space.
pub open spec fn trim_start(s: Seq<char>) -> Seq<char>
    decreases s.len(),
{
    if s.len() > 0 && is_white_space(s[0]) {
        trim_start(s.skip(1))
    } else {
        s
    }
}

/// `s` without its trailing white space.
pub open spec fn trim_end(s: Seq<char>) -> Seq<char>
    decreases s.len(),
{
    if s.len() > 0 && is_white_space(s.last()) {
        trim_end(s.drop_last())
    } else {
        s
    }
}

/// `s` without white space at either end.
pub open spec fn trimmed(s: Seq<char>) -> Seq<char> {
    trim_end(trim_start(s))
}

/// `s` without the run of `c` that it ends in.
pub open spec fn trim_end_char(s: Seq<char>, c: char) -> Seq<char>
    decreases s.len(),
{
    if s.len() > 0 && s.last() == c {
        trim_end_char(s.drop_last(), c)
    } else {
        s
    }
}

/// `c`, with an ASCII capital made small.
pub open spec fn lower_char(c: char) -> char {
    if 'A' <= c <= 'Z' {
        (c as u32 + 32) as char
    } else {
        c
    }
}

/// `s`, with its ASCII capitals made small.
pub open spec fn lower(s: Seq<char>) -> Seq<char> {
    Seq::new(s.len(), |i: int| lower_char(s[i]))
}

/// The number of characters of `s` before the first `c`; the length of `s`
/// where there is none.
pub open spec fn first_position(s: Seq<char>, c: char) -> nat
    decreases s.len(),
{
    if s.len() == 0 || s[0] == c {
        0
    } else {
        1 + first_position(s.skip(1), c)
    }
}

/// What stands before and what stands after the first `c` of `s`.
pub open spec fn split_at_first(s: Seq<char>, c: char) -> Option<(Seq<char>, Seq<char>)> {
    let at = first_position(s, c) as int;
    if at < s.len() {
        Some((s.take(at), s.skip(at + 1)))
    } else {
        None
    }
}

/// Whether `c` is an ASCII digit.
pub open spec fn is_digit(c: char) -> bool {
    '0' <= c <= '9'
}

/// The number that a row of digits writes in base ten.
pub open spec fn digits_value(s: Seq<char>) -> int
    decreases s.len(),
{
    if s.len() == 0 {
        0
    } else {
        digits_value(s.drop_last()) * 10 + (s.last() as int - '0' as int)
    }
}

/// `s` without the `+` that may stand before a number.
pub open spec fn unsigned_part(s: Seq<char>) -> Seq<char> {
    if s.len() > 0 && s[0] == '+' {
        s.skip(1)
    } else {
        s
    }
}

/// The number that `s` writes: an optional `+`, then digits and nothing else,
/// at most `u32::MAX`.
pub open spec fn number_u32(s: Seq<char>) -> Option<u32> {
    let digits = unsigned_part(s);
    if digits.len() > 0 && (forall|i: int| 0 <= i < digits.len() ==> is_digit(#[trigger] digits[i]))
        && digits_value(digits) <= u32::MAX {
        Some(digits_value(digits) as u32)
    } else {
        None
    }
}

/// The digit that writes `d`.
pub open spec fn digit_char(d: int) -> char {
    ('0' as u32 + d) as char
}

/// `n` in base ten, without leading zeros.
pub open spec fn decimal(n: nat) -> Seq<char>
    decreases n,
{
    if n < 10 {
        seq![digit_char(n as int)]
    } else {
        decimal(n / 10).push(digit_char((n % 10) as int))
    }
}

/// `n` in base ten, after a `-` where it is negative.
pub open spec fn signed_decimal(n: int) -> Seq<char> {
    if n < 0 {
        seq!['-'] + decimal((-n) as nat)
    } else {
        decimal(n as nat)
    }
}

/// The characters of `s`, in order.
pub fn chars_of(s: &str) -> (chars: Vec<char>)
    ensures
        chars@ == s@,
{
    let mut chars: Vec<char> = Vec::new();
    for c in it: s.chars()
        invariant
            chars@ == it.seq().take(it.index()),
            it.seq() == s@,
    {
        chars.push(c);
    }
    assert(s@.take(s@.len() as int) =~= s@);
    chars
}

/// Tells whether `c` is white space, as `char::is_whitespace` does.
pub fn white_space(c: char) -> (yes: bool)
    ensures
        yes == is_white_space(c),
{
    let u: u32 = c as u32;
    (0x9 <= u && u <= 0xd) || u == 0x20 || u == 0x85 || u == 0xa0 || u == 0x1680 || (0x2000 <= u
        && u <= 0x200a) || u == 0x2028 || u == 0x2029 || u == 0x202f || u == 0x205f || u == 0x3000
}

/// Cuts the white space off both ends of `s`.
pub fn trim<'a>(s: &'a str) -> (cut: &'a str)
    ensures
        cut@ == trimmed(s@),
{
    let chars = chars_of(s);
    let mut start: usize = 0;
    assert(s@.skip(0) =~= s@);
    while start < chars.len() && white_space(chars[start])
        invariant
            chars@ == s@,
            start <= s@.len(),
            trim_start(s@) == trim_start(s@.skip(start as int)),
        decreases s@.len() - start,
    {
        assert(s@.skip(start as int).skip(1) =~= s@.skip(start + 1));
        start = start + 1;
    }
    let mut end: usize = chars.len();
    assert(s@.subrange(start as int, end as int) =~= s@.skip(start as int));
    while start < end && white_space(chars[end - 1])
        invariant
            chars@ == s@,
            start <= end <= s@.len(),
            trimmed(s@) == trim_end(s@.subrange(start as int, end as int)),
        decreases end,
    {
        assert(s@.subrange(start as int, end as int).drop_last() =~= s@.subrange(
            start as int,
            end - 1,
        ));
        end = end - 1;
    }
    s.substring_char(start, end)
}

/// Cuts every `c` off the end of `s`.
pub fn trim_end_matches<'a>(s: &'a str, c: char) -> (cut: &'a str)
    ensures
        cut@ == trim_end_char(s@, c),
{
    let chars = chars_of(s);
    let mut end: usize = chars.len();
    assert(s@.take(end as int) =~= s@);
    while 0 < end && chars[end - 1] == c
        invariant
            chars@ == s@,
            end <= s@.len(),
            trim_end_char(s@, c) == trim_end_char(s@.take(end as int), c),
        decreases end,
    {
        assert(s@.take(end as int).drop_last() =~= s@.take(end - 1));
        end = end - 1;
    }
    assert(s@.subrange(0, end as int) =~= s@.take(end as int));
    s.substring_char(0, end)
}

/// A copy of `s` with its ASCII capitals made small.
pub fn to_ascii_lowercase(s: &str) -> (small: String)
    ensures
        small@ == lower(s@),
{
    let chars = chars_of(s);
    let mut small = String::new();
    let mut i: usize = 0;
    while i < chars.len()
        invariant
            chars@ == s@,
            i <= s@.len(),
            small@ == lower(s@).take(i as int),
        decreases s@.len() - i,
    {
        let c = chars[i];
        if 'A' <= c && c <= 'Z' {
            small.push((c as u8 + 32) as char);
        } else {
            small.push(c);
        }
        i = i + 1;
        assert(small@ =~= lower(s@).take(i as int));
    }
    assert(lower(s@).take(i as int) =~= lower(s@));
    small
}

/// Tells whether `a` and `b` hold the same characters.
pub fn same_text(a: &str, b: &str) -> (same: bool)
    ensures
        same == (a@ == b@),
{
    let left = chars_of(a);
    let right = chars_of(b);
    if left.len() != right.len() {
        return false;
    }
    let mut i: usize = 0;
    while i < left.len()
        invariant
            left@ == a@,
            right@ == b@,
            left@.len() == right@.len(),
            i <= left@.len(),
            forall|j: int| 0 <= j < i ==> left@[j] == right@[j],
        decreases left@.len() - i,
    {
        if left[i] != right[i] {
            return false;
        }
        i = i + 1;
    }
    assert(a@ =~= b@);
    true
}

/// Splits `s` at the first `c`, which neither half holds.
pub fn split_once<'a>(s: &'a str, c: char) -> (halves: Option<(&'a str, &'a str)>)
    ensures
        match halves {
            Some((before, after)) => split_at_first(s@, c) == Some((before@, after@)),
            None => split_at_first(s@, c) is None,
        },
{
    let chars = chars_of(s);
    let mut at: usize = 0;
    assert(s@.skip(0) =~= s@);
    while at < chars.len() && chars[at] != c
        invariant
            chars@ == s@,
            at <= s@.len(),
            first_position(s@, c) == at + first_position(s@.skip(at as int), c),
        decreases s@.len() - at,
    {
        assert(s@.skip(at as int).skip(1) =~= s@.skip(at + 1));
        at = at + 1;
    }
    if at < chars.len() {
        assert(s@.subrange(0, at as int) =~= s@.take(at as int));
        assert(s@.subrange(at + 1, chars@.len() as int) =~= s@.skip(at + 1));
        Some((s.substring_char(0, at), s.substring_char(at + 1, chars.len())))
    } else {
        None
    }
}

/// A row of digits that starts with `head` writes at least what `head` does.
proof fn lemma_digits_value_grows(s: Seq<char>, n: int)
    requires
        0 <= n <= s.len(),
        forall|i: int| 0 <= i < s.len() ==> is_digit(#[trigger] s[i]),
    ensures
        0 <= digits_value(s.take(n)) <= digits_value(s),
    decreases s.len(),
{
    if n < s.len() {
        let rest = s.drop_last();
        assert(rest.take(n) =~= s.take(n));
        assert forall|i: int| 0 <= i < rest.len() implies is_digit(#[trigger] rest[i]) by {
            assert(rest[i] == s[i]);
        }
        lemma_digits_value_grows(rest, n);
        assert(is_digit(s[s.len() - 1]));
    } else {
        assert(s.take(n) =~= s);
        if s.len() > 0 {
            let rest = s.drop_last();
            assert forall|i: int| 0 <= i < rest.len() implies is_digit(#[trigger] rest[i]) by {
                assert(rest[i] == s[i]);
            }
            lemma_digits_value_grows(rest, rest.len() as int);
            assert(is_digit(s[s.len() - 1]));
            assert(rest.take(rest.len() as int) =~= rest);
        }
    }
}

/// Reads the number that `s` writes.
pub fn parse_u32(s: &str) -> (number: Option<u32>)
    ensures
        number == number_u32(s@),
{
    let chars = chars_of(s);
    let start: usize = if chars.len() > 0 && chars[0] == '+' {
        1
    } else {
        0
    };
    let ghost digits = unsigned_part(s@);
    assert(digits =~= s@.skip(start as int));
    if start == chars.len() {
        return None;
    }
    let mut i: usize = start;
    let mut value: u32 = 0;
    assert(digits.take(0) =~= Seq::<char>::empty());
    while i < chars.len()
        invariant
            chars@ == s@,
            digits == s@.skip(start as int),
            digits == unsigned_part(s@),
            start <= i <= s@.len(),
            forall|j: int| 0 <= j < i - start ==> is_digit(#[trigger] digits[j]),
            value == digits_value(digits.take(i - start)),
        decreases s@.len() - i,
    {
        let c = chars[i];
        let ghost done = i - start;
        assert(digits[done] == c);
        if !('0' <= c && c <= '9') {
            assert(!is_digit(digits[done]));
            return None;
        }
        let wide: u64 = value as u64 * 10 + (c as u64 - '0' as u64);
        assert(digits.take(done + 1).drop_last() =~= digits.take(done));
        assert(wide == digits_value(digits.take(done + 1)));
        if wide > u32::MAX as u64 {
            proof {
                if forall|j: int| 0 <= j < digits.len() ==> is_digit(#[trigger] digits[j]) {
                    lemma_digits_value_grows(digits, done + 1);
                }
            }
            return None;
        }
        value = wide as u32;
        i = i + 1;
    }
    assert(digits.take(i - start) =~= digits);
    Some(value)
}

/// `n` in base ten.
pub fn decimal_text(n: u128) -> (written: String)
    ensures
        written@ == decimal(n as nat),
    decreases n,
{
    let mut written = if n < 10 {
        String::new()
    } else {
        decimal_text(n / 10)
    };
    let last: u8 = (n % 10) as u8;
    written.push((48 + last) as char);
    assert(written@ =~= decimal(n as nat));
    written
}

/// `n` in base ten, signed.
pub fn signed_decimal_text(n: i128) -> (written: String)
    ensures
        written@ == signed_decimal(n as int),
{
    if n < 0 {
        let mut written = String::new();
        written.push('-');
        let magnitude: u128 = (-(n + 1)) as u128 + 1;
        let digits = decimal_text(magnitude);
        written.append(digits.as_str());
        assert(written@ =~= signed_decimal(n as int));
        written
    } else {
        decimal_text(n as u128)
    }
}

/// Text that starts and ends in something else than white space is trimmed.
pub proof fn lemma_trimmed_same(s: Seq<char>)
    requires
        s.len() > 0,
        !is_white_space(s[0]),
        !is_white_space(s.last()),
    ensures
        trimmed(s) == s,
{
}

proof fn lemma_trim_start_shape(s: Seq<char>)
    ensures
        trim_start(s).len() > 0 ==> !is_white_space(trim_start(s)[0]),
    decreases s.len(),
{
    if s.len() > 0 && is_white_space(s[0]) {
        lemma_trim_start_shape(s.skip(1));
    }
}

proof fn lemma_trim_end_shape(s: Seq<char>)
    ensures
        trim_end(s).len() <= s.len(),
        trim_end(s) == s.take(trim_end(s).len() as int),
        trim_end(s).len() > 0 ==> !is_white_space(trim_end(s).last()),
    decreases s.len(),
{
    if s.len() > 0 && is_white_space(s.last()) {
        lemma_trim_end_shape(s.drop_last());
        let n = trim_end(s).len() as int;
        assert(s.drop_last().take(n) =~= s.take(n));
    } else {
        assert(s.take(s.len() as int) =~= s);
    }
}

/// Trimmed text neither starts nor ends in white space.
pub proof fn trimmed_has_bare_ends(s: Seq<char>)
    ensures
        trimmed(s).len() > 0 ==> !is_white_space(trimmed(s)[0]) && !is_white_space(
            trimmed(s).last(),
        ),
{
    lemma_trim_start_shape(s);
    lemma_trim_end_shape(trim_start(s));
}

/// Trimming twice is trimming once.
pub proof fn trimming_is_idempotent(s: Seq<char>)
    ensures
        trimmed(trimmed(s)) == trimmed(s),
{
    trimmed_has_bare_ends(s);
    if trimmed(s).len() > 0 {
        lemma_trimmed_same(trimmed(s));
    }
}

/// Making trimmed text small leaves it trimmed.
pub proof fn lowering_keeps_trimmed(s: Seq<char>)
    ensures
        trimmed(lower(trimmed(s))) == lower(trimmed(s)),
{
    trimmed_has_bare_ends(s);
    let t = lower(trimmed(s));
    if t.len() > 0 {
        assert(t[0] == lower_char(trimmed(s)[0]));
        assert(t.last() == lower_char(trimmed(s).last()));
        lemma_trimmed_same(t);
    }
}

/// Making text small twice is making it small once.
pub proof fn lowering_is_idempotent(s: Seq<char>)
    ensures
        lower(lower(s)) == lower(s),
{
    assert(lower(lower(s)) =~= lower(s));
}

/// A number in base ten is a row of digits that writes that number.
pub proof fn decimal_writes_the_number(n: nat)
    ensures
        decimal(n).len() > 0,
        forall|i: int| 0 <= i < decimal(n).len() ==> is_digit(#[trigger] decimal(n)[i]),
        digits_value(decimal(n)) == n,
    decreases n,
{
    let s = decimal(n);
    if n < 10 {
        assert(s.drop_last() =~= Seq::<char>::empty());
        assert(digits_value(s.drop_last()) == 0);
    } else {
        decimal_writes_the_number(n / 10);
        assert(s.drop_last() =~= decimal(n / 10));
        assert forall|i: int| 0 <= i < s.len() implies is_digit(#[trigger] s[i]) by {
            if i < s.len() - 1 {
                assert(s[i] == decimal(n / 10)[i]);
            }
        }
    }
}

/// Reading what [`decimal`] writes gives the number back.
pub proof fn reading_undoes_writing(n: u32)
    ensures
        number_u32(decimal(n as nat)) == Some(n),
        trimmed(decimal(n as nat)) == decimal(n as nat),
{
    decimal_writes_the_number(n as nat);
    let s = decimal(n as nat);
    assert(is_digit(s[0]));
    assert(is_digit(s[s.len() - 1]));
    lemma_trimmed_same(s);
}

/// Where `s` starts with a stretch free of `c`, and `c` follows, the split is there.
pub proof fn lemma_first_position(s: Seq<char>, c: char, at: int)
    requires
        0 <= at < s.len(),
        s[at] == c,
        forall|i: int| 0 <= i < at ==> #[trigger] s[i] != c,
    ensures
        first_position(s, c) == at,
    decreases s.len(),
{
    if at > 0 {
        assert(s[0] != c);
        let rest = s.skip(1);
        assert forall|i: int| 0 <= i < at - 1 implies #[trigger] rest[i] != c by {
            assert(rest[i] == s[i + 1]);
        }
        lemma_first_position(rest, c, at - 1);
    }
}

/// White space is what Unicode lists as such, by code point.
pub proof fn white_space_is_listed(c: char)
    ensures
        is_white_space(c) <==> set![
            0x9int, 0xa, 0xb, 0xc, 0xd, 0x20, 0x85, 0xa0, 0x1680, 0x2000, 0x2001, 0x2002, 0x2003,
            0x2004, 0x2005, 0x2006, 0x2007, 0x2008, 0x2009, 0x200a, 0x2028, 0x2029, 0x202f, 0x205f,
            0x3000,
        ].contains(c as int),
{
}

/// Whether a text is nothing but white space.
pub open spec fn all_white(s: Seq<char>) -> bool {
    forall|i: int| 0 <= i < s.len() ==> is_white_space(#[trigger] s[i])
}

proof fn lemma_trim_start_skips(before: Seq<char>, rest: Seq<char>)
    requires
        all_white(before),
    ensures
        trim_start(before + rest) == trim_start(rest),
    decreases before.len(),
{
    if before.len() == 0 {
        assert(before + rest =~= rest);
    } else {
        let s = before + rest;
        assert(s[0] == before[0]);
        assert(s.skip(1) =~= before.skip(1) + rest);
        assert forall|i: int| 0 <= i < before.skip(1).len() implies is_white_space(
            #[trigger] before.skip(1)[i],
        ) by {
            assert(before.skip(1)[i] == before[i + 1]);
        }
        lemma_trim_start_skips(before.skip(1), rest);
    }
}

proof fn lemma_trim_end_skips(rest: Seq<char>, after: Seq<char>)
    requires
        all_white(after),
    ensures
        trim_end(rest + after) == trim_end(rest),
    decreases after.len(),
{
    if after.len() == 0 {
        assert(rest + after =~= rest);
    } else {
        let s = rest + after;
        assert(s.last() == after.last());
        assert(is_white_space(after[after.len() - 1]));
        assert(s.drop_last() =~= rest + after.drop_last());
        assert forall|i: int| 0 <= i < after.drop_last().len() implies is_white_space(
            #[trigger] after.drop_last()[i],
        ) by {
            assert(after.drop_last()[i] == after[i]);
        }
        lemma_trim_end_skips(rest, after.drop_last());
    }
}

/// Trimming cuts the white space at the ends and nothing else: what stands
/// between, from its first to its last other character, is kept as it is.
pub proof fn trimming_cuts_white_space_alone(before: Seq<char>, kept: Seq<char>, after: Seq<char>)
    requires
        all_white(before),
        all_white(after),
        kept.len() > 0 ==> !is_white_space(kept[0]) && !is_white_space(kept[kept.len() - 1]),
    ensures
        trimmed(before + kept + after) == kept,
{
    assert(before + kept + after =~= before + (kept + after));
    lemma_trim_start_skips(before, kept + after);
    if kept.len() == 0 {
        assert(kept + after =~= after + kept);
        lemma_trim_start_skips(after, kept);
        assert(kept =~= Seq::empty());
    } else {
        assert((kept + after)[0] == kept[0]);
        assert(trim_start(kept + after) == kept + after);
        lemma_trim_end_skips(kept, after);
    }
}

proof fn lemma_trim_start_empty(s: Seq<char>)
    requires
        trim_start(s).len() == 0,
    ensures
        all_white(s),
    decreases s.len(),
{
    if s.len() > 0 {
        lemma_trim_start_empty(s.skip(1));
        assert forall|i: int| 0 <= i < s.len() implies is_white_space(#[trigger] s[i]) by {
            if i > 0 {
                assert(s[i] == s.skip(1)[i - 1]);
            }
        }
    }
}

proof fn lemma_trim_end_empty(s: Seq<char>)
    requires
        trim_end(s).len() == 0,
    ensures
        all_white(s),
    decreases s.len(),
{
    if s.len() > 0 {
        lemma_trim_end_empty(s.drop_last());
        assert forall|i: int| 0 <= i < s.len() implies is_white_space(#[trigger] s[i]) by {
            if i < s.len() - 1 {
                assert(s[i] == s.drop_last()[i]);
            }
        }
    }
}

/// Nothing is left of a text exactly where it is nothing but white space.
pub proof fn only_white_space_is_trimmed_away(s: Seq<char>)
    ensures
        trimmed(s).len() == 0 <==> all_white(s),
{
    if trimmed(s).len() == 0 {
        lemma_trim_start_shape(s);
        lemma_trim_end_empty(trim_start(s));
        lemma_trim_start_empty(s);
    }
    if all_white(s) {
        trimming_cuts_white_space_alone(s, Seq::empty(), Seq::empty());
        assert(s + Seq::<char>::empty() + Seq::<char>::empty() =~= s);
    }
}

/// Making text small changes the letters from `A` to `Z` alone, each to the
/// small letter, which is 32 places on.
pub proof fn lowering_changes_capitals_alone(s: Seq<char>, i: int)
    requires
        0 <= i < s.len(),
    ensures
        lower(s).len() == s.len(),
        65 <= s[i] as int <= 90 ==> lower(s)[i] as int == s[i] as int + 32,
        !(65 <= s[i] as int <= 90) ==> lower(s)[i] == s[i],
{
}

/// Making text small keeps its length.
pub proof fn lowering_keeps_the_length(s: Seq<char>)
    ensures
        lower(s).len() == s.len(),
{
}

proof fn lemma_no_position(s: Seq<char>, c: char)
    requires
        forall|i: int| 0 <= i < s.len() ==> #[trigger] s[i] != c,
    ensures
        first_position(s, c) == s.len(),
    decreases s.len(),
{
    if s.len() > 0 {
        assert(s[0] != c);
        assert forall|i: int| 0 <= i < s.skip(1).len() implies #[trigger] s.skip(1)[i] != c by {
            assert(s.skip(1)[i] == s[i + 1]);
        }
        lemma_no_position(s.skip(1), c);
    }
}

/// A text is parted at the first `c`, which neither half takes: what stands
/// before it, free of `c`, and what stands after it come back as they are.
pub proof fn split_undoes_joining(before: Seq<char>, c: char, after: Seq<char>)
    requires
        forall|i: int| 0 <= i < before.len() ==> #[trigger] before[i] != c,
    ensures
        split_at_first(before.push(c) + after, c) == Some((before, after)),
{
    let s = before.push(c) + after;
    let at = before.len() as int;
    assert(s[at] == c);
    assert forall|i: int| 0 <= i < at implies #[trigger] s[i] != c by {
        assert(s[i] == before[i]);
    }
    lemma_first_position(s, c, at);
    assert(s.take(at) =~= before);
    assert(s.skip(at + 1) =~= after);
}

/// A text without `c` is not parted.
pub proof fn nothing_to_split(s: Seq<char>, c: char)
    requires
        forall|i: int| 0 <= i < s.len() ==> #[trigger] s[i] != c,
    ensures
        split_at_first(s, c) is None,
{
    lemma_no_position(s, c);
}

proof fn lemma_position_shape(s: Seq<char>, c: char)
    ensures
        first_position(s, c) <= s.len(),
        first_position(s, c) < s.len() ==> s[first_position(s, c) as int] == c,
    decreases s.len(),
{
    if s.len() > 0 && s[0] != c {
        lemma_position_shape(s.skip(1), c);
    }
}

/// The two halves of a text, joined again, are the text.
pub proof fn joining_undoes_split(s: Seq<char>, c: char)
    requires
        split_at_first(s, c) is Some,
    ensures
        split_at_first(s, c) matches Some((before, after)) && s == before.push(c) + after,
{
    lemma_position_shape(s, c);
    let (before, after) = split_at_first(s, c)->Some_0;
    assert(s =~= before.push(c) + after);
}

/// A row of digits is worth ten times what it is without its last digit, and
/// that digit; an empty row is worth nothing.
pub proof fn each_digit_counts_tenfold(s: Seq<char>, d: int)
    requires
        0 <= d <= 9,
    ensures
        digits_value(Seq::empty()) == 0,
        digits_value(s.push((48 + d) as char)) == 10 * digits_value(s) + d,
{
    assert(s.push((48 + d) as char).drop_last() =~= s);
}

/// Whether a text is a row of digits that is worth `n` in base ten.
pub open spec fn writes_size(text: Seq<char>, n: int) -> bool {
    &&& text.len() > 0
    &&& forall|i: int| 0 <= i < text.len() ==> 48 <= (#[trigger] text[i]) as int <= 57
    &&& digits_value(text) == n
}

/// A row of digits, with or without a `+` before it, is read as the number that
/// it writes, unless that does not fit in 32 bits.
pub proof fn row_of_digits_is_read(digits: Seq<char>)
    requires
        digits.len() > 0,
        forall|i: int| 0 <= i < digits.len() ==> 48 <= (#[trigger] digits[i]) as int <= 57,
    ensures
        0 <= digits_value(digits),
        digits_value(digits) <= 0xffff_ffff ==> number_u32(digits) == Some(
            digits_value(digits) as u32,
        ),
        digits_value(digits) > 0xffff_ffff ==> number_u32(digits) is None,
        number_u32(seq!['+'] + digits) == number_u32(digits),
{
    assert forall|i: int| 0 <= i < digits.len() implies is_digit(#[trigger] digits[i]) by {}
    lemma_digits_value_grows(digits, 0);
    assert(digits.take(0) =~= Seq::<char>::empty());
    assert(is_digit(digits[0]));
    assert(unsigned_part(digits) == digits);
    let signed = seq!['+'] + digits;
    assert(signed.skip(1) =~= digits);
}

/// What is read as a number is a row of digits, with or without a `+` before
/// it, that writes it.
pub proof fn only_digits_are_read(s: Seq<char>)
    requires
        number_u32(s) is Some,
    ensures
        s.len() > 0,
        s[0] == '+' ==> writes_size(s.skip(1), number_u32(s)->Some_0 as int),
        s[0] != '+' ==> writes_size(s, number_u32(s)->Some_0 as int),
{
    let digits = unsigned_part(s);
    assert forall|i: int| 0 <= i < digits.len() implies 48 <= (#[trigger] digits[i]) as int
        <= 57 by {
        assert(is_digit(digits[i]));
    }
    row_of_digits_is_read(digits);
}

/// Whether a text writes an integer, after a `-` where it is negative, and
/// without leading zeros.
pub open spec fn writes_integer(text: Seq<char>, n: int) -> bool {
    if n < 0 {
        text.len() > 0 && text[0] == '-' && text[1] != '0' && writes_size(text.skip(1), -n)
    } else {
        (text.len() > 1 ==> text[0] != '0') && writes_size(text, n)
    }
}

proof fn lemma_no_leading_zero(n: nat)
    ensures
        n > 0 ==> decimal(n)[0] != '0',
        decimal(n).len() > 1 ==> decimal(n)[0] != '0',
    decreases n,
{
    if n >= 10 {
        lemma_no_leading_zero(n / 10);
        decimal_writes_the_number(n / 10);
        assert(decimal(n)[0] == decimal(n / 10)[0]);
    }
}

/// A number in base ten has no leading zero.
pub proof fn decimal_has_no_leading_zero(n: nat)
    ensures
        decimal(n).len() > 1 ==> decimal(n)[0] != '0',
{
    lemma_no_leading_zero(n);
}

/// A signed number, written out, reads back as itself.
pub proof fn signed_number_reads_back(n: int)
    ensures
        writes_integer(signed_decimal(n), n),
{
    let size = if n < 0 {
        (-n) as nat
    } else {
        n as nat
    };
    decimal_writes_the_number(size);
    lemma_no_leading_zero(size);
    let text = signed_decimal(n);
    if n < 0 {
        assert(text.skip(1) =~= decimal(size));
    }
    assert forall|i: int| 0 <= i < decimal(size).len() implies 48 <= (#[trigger] decimal(
        size,
    )[i]) as int <= 57 by {
        assert(is_digit(decimal(size)[i]));
    }
}

/// A text writes at most one integer.
pub proof fn text_writes_one_integer(text: Seq<char>, a: int, b: int)
    requires
        writes_integer(text, a),
        writes_integer(text, b),
    ensures
        a == b,
{
    if a < 0 && b >= 0 {
        assert(text[0] == '-' && 48 <= text[0] as int);
    }
    if b < 0 && a >= 0 {
        assert(text[0] == '-' && 48 <= text[0] as int);
    }
}

/// Every `c` at the end of a text is cut off, and nothing before it.
pub proof fn run_at_the_end_is_cut(kept: Seq<char>, c: char, n: nat)
    requires
        kept.len() > 0 ==> kept[kept.len() - 1] != c,
    ensures
        trim_end_char(kept + Seq::new(n, |i: int| c), c) == kept,
    decreases n,
{
    let s = kept + Seq::new(n, |i: int| c);
    if n == 0 {
        assert(s =~= kept);
    } else {
        assert(s.last() == c);
        assert(s.drop_last() =~= kept + Seq::new((n - 1) as nat, |i: int| c));
        run_at_the_end_is_cut(kept, c, (n - 1) as nat);
    }
}

}
