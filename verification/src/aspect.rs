//! Framing: from an operator's `WxH` or `W:H` to an accepted aspect ratio.

use vstd::prelude::*;
use vstd::arithmetic::div_mod::{
    lemma_fundamental_div_mod, lemma_fundamental_div_mod_converse, lemma_mod_multiples_basic,
};
use vstd::string::StringExecFns;

use crate::error::{ProviderError, viewed};
#[allow(unused_imports)]
use crate::error::ProviderErrorModel;
use crate::outside::debug_str;
#[allow(unused_imports)]
use crate::outside::quoted;
use crate::text::{decimal_text, parse_u32, split_once, trim};
#[allow(unused_imports)]
use crate::text::{
    all_white, decimal, decimal_writes_the_number, is_digit, is_white_space, joining_undoes_split,
    lemma_first_position, lemma_trimmed_same, nothing_to_split, number_u32, only_digits_are_read,
    reading_undoes_writing, split_at_first, split_undoes_joining, trimmed,
    trimming_cuts_white_space_alone, trimming_is_idempotent,
};

verus! {

/// The aspect ratios that the API accepts, widest first, as messages list them.
pub const SUPPORTED_LIST: &'static str =
    "[\"21:9\", \"16:9\", \"3:2\", \"5:4\", \"1:1\", \"4:5\", \"2:3\", \"9:16\", \"9:21\"]";

/// The aspect ratios that the API accepts, widest first.
pub open spec fn supported_ratios() -> Seq<(int, int)> {
    seq![(21, 9), (16, 9), (3, 2), (5, 4), (1, 1), (4, 5), (2, 3), (9, 16), (9, 21)]
}

/// Whether the API accepts the ratio of `w` to `h`, written so.
pub open spec fn is_supported(w: int, h: int) -> bool {
    supported_ratios().contains((w, h))
}

/// Whether `d` divides both `a` and `b`.
pub open spec fn divides_both(d: int, a: int, b: int) -> bool {
    d > 0 && a % d == 0 && b % d == 0
}

/// The greatest common divisor of `a` and `b`, by Euclid; 0 where both are 0.
pub open spec fn gcd_of(a: nat, b: nat) -> nat
    decreases b,
{
    if b == 0 {
        a
    } else {
        gcd_of(b, a % b)
    }
}

proof fn lemma_divides_step(d: int, a: int, b: int)
    requires
        d > 0,
        a >= 0,
        b > 0,
    ensures
        divides_both(d, a, b) == divides_both(d, b, a % b),
{
    lemma_fundamental_div_mod(a, b);
    lemma_fundamental_div_mod(b, d);
    let q = a / b;
    let r = a % b;
    let m = b / d;
    if b % d == 0 {
        assert(b == d * m);
        if a % d == 0 {
            lemma_fundamental_div_mod(a, d);
            let n = a / d;
            assert(r == (n - m * q) * d) by (nonlinear_arith)
                requires
                    a == d * n,
                    b == d * m,
                    a == b * q + r,
            ;
            lemma_mod_multiples_basic(n - m * q, d);
        }
        if r % d == 0 {
            lemma_fundamental_div_mod(r, d);
            let n = r / d;
            assert(a == (m * q + n) * d) by (nonlinear_arith)
                requires
                    r == d * n,
                    b == d * m,
                    a == b * q + r,
            ;
            lemma_mod_multiples_basic(m * q + n, d);
        }
    }
}

/// The greatest common divisor of two numbers, not both 0, divides both, and
/// no common divisor exceeds it.
pub proof fn gcd_is_greatest(a: nat, b: nat)
    requires
        a > 0 || b > 0,
    ensures
        divides_both(gcd_of(a, b) as int, a as int, b as int),
        forall|d: int| #[trigger] divides_both(d, a as int, b as int) ==> d <= gcd_of(a, b),
    decreases b,
{
    if b == 0 {
        lemma_mod_multiples_basic(1, a as int);
        assert forall|d: int| #[trigger] divides_both(d, a as int, b as int) implies d <= gcd_of(
            a,
            b,
        ) by {
            if d > a {
                vstd::arithmetic::div_mod::lemma_small_mod(a, d as nat);
            }
        }
    } else {
        gcd_is_greatest(b, a % b);
        let g = gcd_of(a, b) as int;
        lemma_divides_step(g, a as int, b as int);
        assert forall|d: int| #[trigger] divides_both(d, a as int, b as int) implies d <= g by {
            lemma_divides_step(d, a as int, b as int);
            assert(divides_both(d, b as int, (a % b) as int));
        }
    }
}

/// Scaling two numbers scales their greatest common divisor.
pub proof fn gcd_scales(k: nat, a: nat, b: nat)
    requires
        k > 0,
    ensures
        gcd_of(k * a, k * b) == k * gcd_of(a, b),
    decreases b,
{
    if b == 0 {
        assert(k * b == 0);
    } else {
        let q = a / b;
        let r = a % b;
        lemma_fundamental_div_mod(a as int, b as int);
        assert(k * a == q * (k * b) + k * r) by (nonlinear_arith)
            requires
                a == b * q + r,
        ;
        assert(0 <= k * r < k * b) by (nonlinear_arith)
            requires
                0 <= r < b,
                k > 0,
        ;
        lemma_fundamental_div_mod_converse(
            (k * a) as int,
            (k * b) as int,
            q as int,
            (k * r) as int,
        );
        gcd_scales(k, b, r);
    }
}

/// The greatest common divisor, by Euclid's algorithm.
pub fn gcd(a: u32, b: u32) -> (g: u32)
    ensures
        g == gcd_of(a as nat, b as nat),
        a > 0 || b > 0 ==> divides_both(g as int, a as int, b as int),
        a > 0 || b > 0 ==> forall|d: int| #[trigger]
            divides_both(d, a as int, b as int) ==> d <= g,
    decreases b,
{
    proof {
        if a > 0 || b > 0 {
            gcd_is_greatest(a as nat, b as nat);
        }
    }
    if b == 0 {
        a
    } else {
        gcd(b, a % b)
    }
}

/// The two numbers on either side of a separator, and whether it was a `:`.
pub open spec fn dims_of_halves(
    halves: (Seq<char>, Seq<char>),
    was_ratio: bool,
) -> Option<(u32, u32, bool)> {
    match (number_u32(trimmed(halves.0)), number_u32(trimmed(halves.1))) {
        (Some(w), Some(h)) => Some((w, h, was_ratio)),
        _ => None,
    }
}

/// What a size text says: its two numbers, and whether a `:` parts them. A `:`
/// goes before an `x`, and an `x` before an `X`.
pub open spec fn dims(size: Seq<char>) -> Option<(u32, u32, bool)> {
    let text = trimmed(size);
    match split_at_first(text, ':') {
        Some(halves) => dims_of_halves(halves, true),
        None => match split_at_first(text, 'x') {
            Some(halves) => dims_of_halves(halves, false),
            None => match split_at_first(text, 'X') {
                Some(halves) => dims_of_halves(halves, false),
                None => None,
            },
        },
    }
}

/// Reads the two numbers that stand on either side of a separator.
fn parse_halves(w: &str, h: &str, was_ratio: bool) -> (read: Option<(u32, u32, bool)>)
    ensures
        read == dims_of_halves((w@, h@), was_ratio),
{
    match (parse_u32(trim(w)), parse_u32(trim(h))) {
        (Some(width), Some(height)) => Some((width, height, was_ratio)),
        _ => None,
    }
}

/// Reads `(w, h, was_ratio)` off a size text, where `was_ratio` tells that a
/// `:` parts the two numbers and the text is a ratio, not a pixel size.
pub fn parse_dims(s: &str) -> (read: Option<(u32, u32, bool)>)
    ensures
        read == dims(s@),
{
    let trimmed_text = trim(s);
    match split_once(trimmed_text, ':') {
        Some((w, h)) => parse_halves(w, h, true),
        None => match split_once(trimmed_text, 'x') {
            Some((w, h)) => parse_halves(w, h, false),
            None => match split_once(trimmed_text, 'X') {
                Some((w, h)) => parse_halves(w, h, false),
                None => None,
            },
        },
    }
}

/// `w:h`.
pub open spec fn ratio_text(w: int, h: int) -> Seq<char> {
    decimal(w as nat).push(':') + decimal(h as nat)
}

/// The ratio in which `w` by `h` is matched: as it stands where it is a ratio
/// that the API accepts so, else in lowest terms.
pub open spec fn ratio_of(w: int, h: int, was_ratio: bool) -> (int, int) {
    if was_ratio && is_supported(w, h) {
        (w, h)
    } else {
        let g = gcd_of(w as nat, h as nat) as int;
        (w / g, h / g)
    }
}

/// The refusal of a size that is neither `WxH` nor `W:H`.
pub open spec fn unreadable_size(size: Seq<char>) -> Seq<char> {
    "size must be `WxH` or `W:H`; got "@ + quoted(size) + ". Supported aspect ratios: "@
        + SUPPORTED_LIST@
}

/// The refusal of a size with a dimension of 0.
pub open spec fn zero_size(size: Seq<char>) -> Seq<char> {
    "size dimensions must be > 0; got "@ + quoted(size) + ". Supported aspect ratios: "@
        + SUPPORTED_LIST@
}

/// The refusal of a ratio that the API does not accept.
pub open spec fn unsupported_ratio(ratio: Seq<char>) -> Seq<char> {
    "aspect ratio "@ + ratio + " is not supported by Stability AI. Supported aspect ratios: "@
        + SUPPORTED_LIST@
}

/// The refusal of a pixel size whose ratio the API does not accept.
pub open spec fn unsupported_size(ratio: Seq<char>, size: Seq<char>) -> Seq<char> {
    "aspect ratio "@ + ratio + " (from size "@ + quoted(size)
        + ") is not supported by Stability AI. Supported aspect ratios: "@ + SUPPORTED_LIST@
}

/// The aspect ratio that a size text asks for, or why there is none.
pub open spec fn aspect_ratio(size: Seq<char>) -> Result<Seq<char>, ProviderErrorModel> {
    match dims(size) {
        None => Err(ProviderErrorModel::BadRequest(unreadable_size(size))),
        Some((w, h, was_ratio)) => if w == 0 || h == 0 {
            Err(ProviderErrorModel::BadRequest(zero_size(size)))
        } else {
            let ratio = ratio_of(w as int, h as int, was_ratio);
            let written = ratio_text(ratio.0, ratio.1);
            if is_supported(ratio.0, ratio.1) {
                Ok(written)
            } else if was_ratio {
                let given = ratio_text(w as int, h as int);
                Err(ProviderErrorModel::BadRequest(unsupported_ratio(given)))
            } else {
                Err(ProviderErrorModel::BadRequest(unsupported_size(written, size)))
            }
        },
    }
}

/// Tells whether the API accepts the ratio of `w` to `h`, written so.
pub fn supported(w: u32, h: u32) -> (yes: bool)
    ensures
        yes == is_supported(w as int, h as int),
{
    let ratios: [(u32, u32); 9] = [
        (21, 9),
        (16, 9),
        (3, 2),
        (5, 4),
        (1, 1),
        (4, 5),
        (2, 3),
        (9, 16),
        (9, 21),
    ];
    let mut i: usize = 0;
    assert(supported_ratios().len() == 9);
    assert(forall|j: int|
        0 <= j < 9 ==> supported_ratios()[j] == (
            (#[trigger] ratios@[j]).0 as int,
            ratios@[j].1 as int,
        ));
    while i < 9
        invariant
            i <= 9,
            ratios@.len() == 9,
            supported_ratios().len() == 9,
            forall|j: int|
                0 <= j < 9 ==> supported_ratios()[j] == (
                    (#[trigger] ratios@[j]).0 as int,
                    ratios@[j].1 as int,
                ),
            forall|j: int| 0 <= j < i ==> (w, h) != #[trigger] ratios@[j],
        decreases 9 - i,
    {
        let (rw, rh) = ratios[i];
        if rw == w && rh == h {
            assert(supported_ratios()[i as int] == (w as int, h as int));
            return true;
        }
        i = i + 1;
    }
    assert forall|j: int| 0 <= j < 9 implies #[trigger] supported_ratios()[j] != (
        w as int,
        h as int,
    ) by {
        assert((w, h) != ratios@[j]);
    }
    false
}

/// Writes `w:h`.
fn write_ratio(w: u32, h: u32) -> (written: String)
    ensures
        written@ == ratio_text(w as int, h as int),
{
    let mut written = decimal_text(w as u128);
    written.push(':');
    let right = decimal_text(h as u128);
    written.append(right.as_str());
    written
}

/// Reduces a `WxH` size or a `W:H` ratio to an aspect ratio that the API
/// accepts. A ratio that is accepted as it stands is taken so, before any
/// reducing; what matches none exactly is refused.
pub fn aspect_ratio_for(size: &str) -> (ratio: Result<String, ProviderError>)
    ensures
        viewed(ratio) == aspect_ratio(size@),
{
    let quoted_size = debug_str(size);
    let (w, h, was_ratio) = match parse_dims(size) {
        Some(read) => read,
        None => {
            let message = String::from_str("size must be `WxH` or `W:H`; got ").concat(
                quoted_size.as_str(),
            ).concat(". Supported aspect ratios: ").concat(SUPPORTED_LIST);
            return Err(ProviderError::BadRequest { message });
        },
    };
    if w == 0 || h == 0 {
        let message = String::from_str("size dimensions must be > 0; got ").concat(
            quoted_size.as_str(),
        ).concat(". Supported aspect ratios: ").concat(SUPPORTED_LIST);
        return Err(ProviderError::BadRequest { message });
    }
    if was_ratio && supported(w, h) {
        return Ok(write_ratio(w, h));
    }
    let g = gcd(w, h);
    let (rw, rh) = (w / g, h / g);
    let candidate = write_ratio(rw, rh);
    if supported(rw, rh) {
        Ok(candidate)
    } else if was_ratio {
        let verbatim = write_ratio(w, h);
        let message = String::from_str("aspect ratio ").concat(verbatim.as_str()).concat(
            " is not supported by Stability AI. Supported aspect ratios: ",
        ).concat(SUPPORTED_LIST);
        Err(ProviderError::BadRequest { message })
    } else {
        let message = String::from_str("aspect ratio ").concat(candidate.as_str()).concat(
            " (from size ",
        ).concat(quoted_size.as_str()).concat(
            ") is not supported by Stability AI. Supported aspect ratios: ",
        ).concat(SUPPORTED_LIST);
        Err(ProviderError::BadRequest { message })
    }
}

/// A ratio, written out, reads back as itself.
pub proof fn written_ratio_reads_back(w: u32, h: u32)
    ensures
        dims(ratio_text(w as int, h as int)) == Some((w, h, true)),
{
    let left = decimal(w as nat);
    let right = decimal(h as nat);
    let s = ratio_text(w as int, h as int);
    let at = left.len() as int;
    decimal_writes_the_number(w as nat);
    decimal_writes_the_number(h as nat);
    assert(is_digit(left[0]));
    assert(is_digit(right[right.len() - 1]));
    assert(s[0] == left[0]);
    assert(s.last() == right[right.len() - 1]);
    lemma_trimmed_same(s);
    assert forall|i: int| 0 <= i < at implies #[trigger] s[i] != ':' by {
        assert(is_digit(left[i]));
        assert(s[i] == left[i]);
    }
    assert(s[at] == ':');
    lemma_first_position(s, ':', at);
    assert(s.take(at) =~= left);
    assert(s.skip(at + 1) =~= right);
    reading_undoes_writing(w);
    reading_undoes_writing(h);
}

/// Two ratios written alike are the same ratio.
pub proof fn written_ratios_differ(w1: u32, h1: u32, w2: u32, h2: u32)
    requires
        ratio_text(w1 as int, h1 as int) == ratio_text(w2 as int, h2 as int),
    ensures
        w1 == w2,
        h1 == h2,
{
    written_ratio_reads_back(w1, h1);
    written_ratio_reads_back(w2, h2);
}

proof fn lemma_supported_bounds(w: int, h: int)
    requires
        is_supported(w, h),
    ensures
        0 < w <= 21,
        0 < h <= 21,
{
    let i = choose|i: int| 0 <= i < supported_ratios().len() && supported_ratios()[i] == (w, h);
    assert(supported_ratios()[i] == (w, h));
}

proof fn lemma_ratio_of(w: int, h: int)
    requires
        w > 0,
        h > 0,
    ensures
        ({
            let ratio = ratio_of(w, h, false);
            let g = gcd_of(w as nat, h as nat) as int;
            &&& g > 0
            &&& w == g * ratio.0
            &&& h == g * ratio.1
            &&& 0 < ratio.0 <= w
            &&& 0 < ratio.1 <= h
            &&& gcd_of(ratio.0 as nat, ratio.1 as nat) == 1
        }),
{
    gcd_is_greatest(w as nat, h as nat);
    let g = gcd_of(w as nat, h as nat) as int;
    let (p, q) = ratio_of(w, h, false);
    lemma_fundamental_div_mod(w, g);
    lemma_fundamental_div_mod(h, g);
    assert(0 < p <= w) by (nonlinear_arith)
        requires
            w == g * p,
            w > 0,
            g > 0,
    ;
    assert(0 < q <= h) by (nonlinear_arith)
        requires
            h == g * q,
            h > 0,
            g > 0,
    ;
    gcd_scales(g as nat, p as nat, q as nat);
    let c = gcd_of(p as nat, q as nat) as int;
    assert(c == 1) by (nonlinear_arith)
        requires
            g == g * c,
            g > 0,
    ;
}

/// An accepted size gives one of the accepted ratios, and exactly the ratio of
/// its two numbers: nothing is rounded.
pub proof fn accepted_ratio_is_exact(size: Seq<char>)
    requires
        aspect_ratio(size) is Ok,
    ensures
        dims(size) matches Some((w, h, _)) && exists|p: int, q: int| #[trigger]
            is_supported(p, q) && aspect_ratio(size)->Ok_0 == ratio_text(p, q) && w * q == h * p,
{
    let (w, h, was_ratio) = dims(size)->Some_0;
    let (p, q) = ratio_of(w as int, h as int, was_ratio);
    if (p, q) != (w as int, h as int) {
        lemma_ratio_of(w as int, h as int);
        let g = gcd_of(w as nat, h as nat) as int;
        assert(w * q == h * p) by (nonlinear_arith)
            requires
                w == g * p,
                h == g * q,
        ;
    } else {
        assert(w * q == h * p) by (nonlinear_arith)
            requires
                w == p,
                h == q,
        ;
    }
    assert(is_supported(p, q));
}

/// The accepted ratios, case by case.
spec fn is_listed(w: int, h: int) -> bool {
    ||| w == 21 && h == 9
    ||| w == 16 && h == 9
    ||| w == 3 && h == 2
    ||| w == 5 && h == 4
    ||| w == 1 && h == 1
    ||| w == 4 && h == 5
    ||| w == 2 && h == 3
    ||| w == 9 && h == 16
    ||| w == 9 && h == 21
}

proof fn lemma_supported_cases(w: int, h: int)
    requires
        is_supported(w, h),
    ensures
        is_listed(w, h),
{
    let i = choose|i: int| 0 <= i < supported_ratios().len() && supported_ratios()[i] == (w, h);
    assert(supported_ratios()[i] == (w, h));
}

proof fn lemma_supported_once(w: int, h: int, p: int, q: int)
    requires
        is_supported(w, h),
        is_supported(p, q),
        w * q == h * p,
    ensures
        w == p,
        h == q,
{
    lemma_supported_cases(w, h);
    lemma_supported_cases(p, q);
    assert(w == p && h == q) by (nonlinear_arith)
        requires
            is_listed(w, h),
            is_listed(p, q),
            w * q == h * p,
    ;
}

/// An accepted ratio in lowest terms is what every size of that ratio, in
/// pixels or not, and no other size is reduced to.
pub proof fn size_is_reduced(size: Seq<char>, p: u32, q: u32)
    requires
        is_supported(p as int, q as int),
        gcd_of(p as nat, q as nat) == 1,
        dims(size) matches Some((w, h, _)) && w > 0 && h > 0,
    ensures
        dims(size) matches Some((w, h, _)) && (aspect_ratio(size) == Ok::<
            Seq<char>,
            ProviderErrorModel,
        >(ratio_text(p as int, q as int)) <==> w * q == h * p),
{
    let (w, h, was_ratio) = dims(size)->Some_0;
    let (rw, rh) = ratio_of(w as int, h as int, false);
    let g = gcd_of(w as nat, h as nat) as int;
    lemma_supported_bounds(p as int, q as int);
    lemma_ratio_of(w as int, h as int);
    if w * q == h * p {
        assert(rw * q == rh * p) by (nonlinear_arith)
            requires
                w * q == h * p,
                w == g * rw,
                h == g * rh,
                g > 0,
        ;
        gcd_scales(q as nat, rw as nat, rh as nat);
        gcd_scales(rh as nat, p as nat, q as nat);
        assert(q * rw == rh * p && q * rh == rh * q) by (nonlinear_arith)
            requires
                rw * q == rh * p,
        ;
        assert(gcd_of((q * rw) as nat, (q * rh) as nat) == q * 1);
        assert(gcd_of((rh * p) as nat, (rh * q) as nat) == rh * 1);
        assert(rh == q);
        assert(rw == p) by (nonlinear_arith)
            requires
                rw * q == rh * p,
                rh == q,
                q > 0,
        ;
        if was_ratio && is_supported(w as int, h as int) {
            lemma_supported_once(w as int, h as int, p as int, q as int);
        }
    }
    if aspect_ratio(size) == Ok::<Seq<char>, ProviderErrorModel>(ratio_text(p as int, q as int)) {
        if was_ratio && is_supported(w as int, h as int) {
            written_ratios_differ(w, h, p, q);
            assert(w * q == h * p) by (nonlinear_arith)
                requires
                    w == p,
                    h == q,
            ;
        } else {
            written_ratios_differ(rw as u32, rh as u32, p, q);
            assert(w * q == h * p) by (nonlinear_arith)
                requires
                    w == g * p,
                    h == g * q,
            ;
        }
    }
}

/// The two accepted ratios that are not in lowest terms come of themselves
/// alone: nothing is reduced to them, be it in pixels or not.
pub proof fn nothing_is_reduced_to_twenty_one_to_nine(size: Seq<char>)
    requires
        aspect_ratio(size) == Ok::<Seq<char>, ProviderErrorModel>(ratio_text(21, 9))
            || aspect_ratio(size) == Ok::<Seq<char>, ProviderErrorModel>(ratio_text(9, 21)),
    ensures
        aspect_ratio(size) == Ok::<Seq<char>, ProviderErrorModel>(ratio_text(21, 9)) ==> dims(size)
            == Some((21u32, 9u32, true)),
        aspect_ratio(size) == Ok::<Seq<char>, ProviderErrorModel>(ratio_text(9, 21)) ==> dims(size)
            == Some((9u32, 21u32, true)),
{
    let (w, h, was_ratio) = dims(size)->Some_0;
    let (rw, rh) = ratio_of(w as int, h as int, was_ratio);
    lemma_ratio_of(w as int, h as int);
    assert(gcd_of(3, 0) == 3);
    assert(gcd_of(9, 3) == 3);
    assert(gcd_of(21, 9) == 3);
    assert(gcd_of(9, 21) == 3);
    if ratio_text(rw, rh) == ratio_text(21, 9) {
        written_ratios_differ(rw as u32, rh as u32, 21, 9);
    }
    if ratio_text(rw, rh) == ratio_text(9, 21) {
        written_ratios_differ(rw as u32, rh as u32, 9, 21);
    }
}

/// Every accepted ratio, asked for as such, is passed through unchanged.
pub proof fn accepted_ratio_passes_through(w: int, h: int)
    requires
        is_supported(w, h),
    ensures
        aspect_ratio(ratio_text(w, h)) == Ok::<Seq<char>, ProviderErrorModel>(ratio_text(w, h)),
{
    lemma_supported_bounds(w, h);
    written_ratio_reads_back(w as u32, h as u32);
}

/// The ratio that a size gives, given as a size again, gives itself.
pub proof fn reduction_is_idempotent(size: Seq<char>)
    requires
        aspect_ratio(size) is Ok,
    ensures
        aspect_ratio(aspect_ratio(size)->Ok_0) == aspect_ratio(size),
{
    accepted_ratio_is_exact(size);
    let (w, h, was_ratio) = dims(size)->Some_0;
    let (p, q) = ratio_of(w as int, h as int, was_ratio);
    accepted_ratio_passes_through(p, q);
}

/// Whether a size is one of the two accepted ratios that are not in lowest terms.
pub open spec fn is_unreduced(size: Seq<char>) -> bool {
    dims(size) == Some((21u32, 9u32, true)) || dims(size) == Some((9u32, 21u32, true))
}

/// A size that is not one of the two special ratios is decided by its lowest
/// terms, in whichever form it is written.
proof fn lemma_lowest_terms_decide(w: int, h: int, was_ratio: bool)
    requires
        w > 0,
        h > 0,
        !(was_ratio && (w == 21 && h == 9 || w == 9 && h == 21)),
    ensures
        ratio_of(w, h, was_ratio) == ratio_of(w, h, false),
{
    if was_ratio && is_supported(w, h) {
        lemma_supported_cases(w, h);
        assert(gcd_of(1, 0) == 1);
        assert(gcd_of(1, 1) == 1);
        assert(gcd_of(2, 1) == 1);
        assert(gcd_of(3, 2) == 1);
        assert(gcd_of(2, 3) == 1);
        assert(gcd_of(4, 1) == 1);
        assert(gcd_of(5, 4) == 1);
        assert(gcd_of(4, 5) == 1);
        assert(gcd_of(7, 2) == 1);
        assert(gcd_of(9, 7) == 1);
        assert(gcd_of(16, 9) == 1);
        assert(gcd_of(9, 16) == 1);
        assert(gcd_of(w as nat, h as nat) == 1);
        lemma_ratio_of(w, h);
        let (p, q) = ratio_of(w, h, false);
        assert(1 * p == w && 1 * q == h);
    }
}

/// Scaling a size, in pixels or not, leaves its ratio, and whether it is
/// accepted, alone; the two ratios that nothing is reduced to are left out.
pub proof fn scaling_keeps_the_ratio(size: Seq<char>, scaled: Seq<char>, k: nat)
    requires
        k > 0,
        dims(size) matches Some((w, h, _)) && w > 0 && h > 0 && (dims(scaled) matches Some(
            (sw, sh, _),
        ) && sw == k * w && sh == k * h),
        !is_unreduced(size),
        !is_unreduced(scaled),
    ensures
        aspect_ratio(size) is Ok <==> aspect_ratio(scaled) is Ok,
        aspect_ratio(size) is Ok ==> aspect_ratio(scaled) == aspect_ratio(size),
{
    let (w, h, was_ratio) = dims(size)->Some_0;
    let (sw, sh, scaled_was_ratio) = dims(scaled)->Some_0;
    assert(sw > 0 && sh > 0) by (nonlinear_arith)
        requires
            sw == k * w,
            sh == k * h,
            w > 0,
            h > 0,
            k > 0,
    ;
    lemma_ratio_of(w as int, h as int);
    lemma_ratio_of(sw as int, sh as int);
    gcd_scales(k, w as nat, h as nat);
    let g = gcd_of(w as nat, h as nat) as int;
    let sg = gcd_of(sw as nat, sh as nat) as int;
    let (p, q) = ratio_of(w as int, h as int, false);
    let (sp, sq) = ratio_of(sw as int, sh as int, false);
    assert(sg == k * g);
    assert(sp == p && sq == q) by (nonlinear_arith)
        requires
            sw == k * w,
            sh == k * h,
            w == g * p,
            h == g * q,
            sw == sg * sp,
            sh == sg * sq,
            sg == k * g,
            sg > 0,
    ;
    lemma_lowest_terms_decide(w as int, h as int, was_ratio);
    lemma_lowest_terms_decide(sw as int, sh as int, scaled_was_ratio);
}

/// Whether `part` stands somewhere in `whole`.
pub open spec fn occurs_in(part: Seq<char>, whole: Seq<char>) -> bool {
    exists|i: int| #[trigger] occurs_at(part, whole, i)
}

/// Whether `part` stands in `whole` from `i` on.
pub open spec fn occurs_at(part: Seq<char>, whole: Seq<char>, i: int) -> bool {
    0 <= i && i + part.len() <= whole.len() && whole.subrange(i, i + part.len()) == part
}

proof fn lemma_occurs_in_longer(part: Seq<char>, before: Seq<char>, whole: Seq<char>)
    requires
        occurs_in(part, whole),
    ensures
        occurs_in(part, before + whole),
{
    let i = choose|i: int| #[trigger] occurs_at(part, whole, i);
    let j = i + before.len();
    assert((before + whole).subrange(j, j + part.len()) =~= whole.subrange(i, i + part.len()));
    assert(occurs_at(part, before + whole, j));
}

/// The list that messages show names every accepted ratio.
pub proof fn list_names_every_accepted_ratio(w: int, h: int)
    requires
        is_supported(w, h),
    ensures
        occurs_in(ratio_text(w, h), SUPPORTED_LIST@),
{
    reveal_strlit(
        "[\"21:9\", \"16:9\", \"3:2\", \"5:4\", \"1:1\", \"4:5\", \"2:3\", \"9:16\", \"9:21\"]",
    );
    let list = SUPPORTED_LIST@;
    let starts: Seq<int> = seq![2, 10, 18, 25, 32, 39, 46, 53, 61];
    let i = choose|i: int| 0 <= i < supported_ratios().len() && supported_ratios()[i] == (w, h);
    assert(supported_ratios()[i] == (w, h));
    reveal_with_fuel(decimal, 2);
    let text = ratio_text(w, h);
    assert(list.subrange(starts[i], starts[i] + text.len()) =~= text);
    assert(occurs_at(text, list, starts[i]));
}

/// Every refusal is a bad request that ends in the list of accepted ratios, and
/// so names each of them.
pub proof fn refusal_names_the_accepted_ratios(size: Seq<char>)
    requires
        aspect_ratio(size) is Err,
    ensures
        aspect_ratio(size)->Err_0 is BadRequest,
        SUPPORTED_LIST@.is_suffix_of(aspect_ratio(size)->Err_0.text()),
        forall|w: int, h: int| #[trigger]
            is_supported(w, h) ==> occurs_in(ratio_text(w, h), aspect_ratio(size)->Err_0.text()),
{
    let text = aspect_ratio(size)->Err_0.text();
    let before = text.take(text.len() - SUPPORTED_LIST@.len());
    assert(text =~= before + SUPPORTED_LIST@);
    assert forall|w: int, h: int| #[trigger] is_supported(w, h) implies occurs_in(
        ratio_text(w, h),
        text,
    ) by {
        list_names_every_accepted_ratio(w, h);
        lemma_occurs_in_longer(ratio_text(w, h), before, SUPPORTED_LIST@);
    }
}

/// White space around a size does not change what it says.
pub proof fn outer_white_space_is_ignored(size: Seq<char>)
    ensures
        dims(trimmed(size)) == dims(size),
{
    trimming_is_idempotent(size);
}

/// Whether a character parts the two numbers of a size.
pub open spec fn is_separator(c: char) -> bool {
    c == ':' || c == 'x' || c == 'X'
}

/// A number that can be read holds no separator, and starts and ends in
/// something else than white space.
proof fn lemma_number_shape(s: Seq<char>)
    requires
        number_u32(s) is Some,
    ensures
        s.len() > 0,
        !is_white_space(s[0]),
        !is_white_space(s[s.len() - 1]),
        forall|i: int| 0 <= i < s.len() ==> !is_separator(#[trigger] s[i]),
{
    only_digits_are_read(s);
    assert forall|i: int| 0 <= i < s.len() implies (#[trigger] s[i] == '+' || 48 <= s[i] as int
        <= 57) by {
        if s[0] == '+' && i > 0 {
            assert(s[i] == s.skip(1)[i - 1]);
        }
    }
}

/// A size reads as the two numbers that it writes, in the order written: each
/// may have white space around it, and a `:`, an `x` or an `X` stands between.
/// A `:` makes it a ratio.
pub proof fn size_reads_as_its_numbers(
    pads: (Seq<char>, Seq<char>, Seq<char>, Seq<char>),
    left: Seq<char>,
    separator: char,
    right: Seq<char>,
)
    requires
        all_white(pads.0),
        all_white(pads.1),
        all_white(pads.2),
        all_white(pads.3),
        is_separator(separator),
        number_u32(left) is Some,
        number_u32(right) is Some,
    ensures
        dims((pads.0 + left + pads.1).push(separator) + (pads.2 + right + pads.3)) == Some(
            (number_u32(left)->Some_0, number_u32(right)->Some_0, separator == ':'),
        ),
{
    let none = Seq::<char>::empty();
    let size = (pads.0 + left + pads.1).push(separator) + (pads.2 + right + pads.3);
    let before = left + pads.1;
    let after = pads.2 + right;
    let core = before.push(separator) + after;
    lemma_number_shape(left);
    lemma_number_shape(right);
    assert(size =~= pads.0 + core + pads.3);
    assert(core[0] == left[0]);
    assert(core[core.len() - 1] == right[right.len() - 1]);
    trimming_cuts_white_space_alone(pads.0, core, pads.3);
    assert forall|i: int| 0 <= i < before.len() implies !is_separator(#[trigger] before[i]) by {
        if i < left.len() {
            assert(before[i] == left[i]);
        } else {
            assert(is_white_space(pads.1[i - left.len()]));
        }
    }
    assert forall|i: int| 0 <= i < after.len() implies !is_separator(#[trigger] after[i]) by {
        if i < pads.2.len() {
            assert(is_white_space(pads.2[i]));
            assert(after[i] == pads.2[i]);
        } else {
            assert(after[i] == right[i - pads.2.len()]);
        }
    }
    assert forall|i: int| 0 <= i < core.len() && is_separator(#[trigger] core[i]) implies core[i]
        == separator by {
        if i < before.len() {
            assert(core[i] == before[i]);
        } else if i > before.len() {
            assert(core[i] == after[i - before.len() - 1]);
        }
    }
    split_undoes_joining(before, separator, after);
    if separator != ':' {
        nothing_to_split(core, ':');
    }
    if separator == 'X' {
        nothing_to_split(core, 'x');
    }
    assert(before =~= none + left + pads.1);
    assert(after =~= pads.2 + right + none);
    trimming_cuts_white_space_alone(none, left, pads.1);
    trimming_cuts_white_space_alone(pads.2, right, none);
}

/// What reads as a size is two numbers with a separator between them, and
/// nothing else does.
pub proof fn only_two_numbers_are_a_size(size: Seq<char>)
    requires
        dims(size) is Some,
    ensures
        exists|left: Seq<char>, separator: char, right: Seq<char>|
            {
                &&& trimmed(size) == #[trigger] (left.push(separator) + right)
                &&& is_separator(separator)
                &&& number_u32(trimmed(left)) == Some(dims(size)->Some_0.0)
                &&& number_u32(trimmed(right)) == Some(dims(size)->Some_0.1)
                &&& dims(size)->Some_0.2 == (separator == ':')
            },
{
    let text = trimmed(size);
    let separator = if split_at_first(text, ':') is Some {
        ':'
    } else if split_at_first(text, 'x') is Some {
        'x'
    } else {
        'X'
    };
    joining_undoes_split(text, separator);
    let (left, right) = split_at_first(text, separator)->Some_0;
    assert(text == left.push(separator) + right);
}

/// A pixel size, written out, reads back as itself, width first.
pub proof fn written_size_reads_back(w: u32, h: u32)
    ensures
        dims(decimal(w as nat).push('x') + decimal(h as nat)) == Some((w, h, false)),
        dims(decimal(w as nat).push('X') + decimal(h as nat)) == Some((w, h, false)),
{
    let none = Seq::<char>::empty();
    let (left, right) = (decimal(w as nat), decimal(h as nat));
    reading_undoes_writing(w);
    reading_undoes_writing(h);
    size_reads_as_its_numbers((none, none, none, none), left, 'x', right);
    size_reads_as_its_numbers((none, none, none, none), left, 'X', right);
    assert(none + left + none =~= left);
    assert(none + right + none =~= right);
}

/// The API accepts nine ratios.
pub proof fn nine_ratios_are_accepted(w: int, h: int)
    ensures
        is_supported(w, h) <==> {
            ||| w == 21 && h == 9
            ||| w == 16 && h == 9
            ||| w == 3 && h == 2
            ||| w == 5 && h == 4
            ||| w == 1 && h == 1
            ||| w == 4 && h == 5
            ||| w == 2 && h == 3
            ||| w == 9 && h == 16
            ||| w == 9 && h == 21
        },
{
    let all = supported_ratios();
    assert(all[0] == (21int, 9int) && all[1] == (16int, 9int) && all[2] == (3int, 2int));
    assert(all[3] == (5int, 4int) && all[4] == (1int, 1int) && all[5] == (4int, 5int));
    assert(all[6] == (2int, 3int) && all[7] == (9int, 16int) && all[8] == (9int, 21int));
    if is_supported(w, h) {
        lemma_supported_cases(w, h);
    }
}

/// A size that is `k` times an accepted ratio in lowest terms is sent as that
/// ratio, width first, in whichever of the three forms it is written.
pub proof fn multiple_of_a_ratio_is_sent_as_it(p: u32, q: u32, k: nat, separator: char)
    requires
        is_supported(p as int, q as int),
        gcd_of(p as nat, q as nat) == 1,
        k > 0,
        k * p <= u32::MAX,
        k * q <= u32::MAX,
        is_separator(separator),
    ensures
        aspect_ratio(decimal((k * p) as nat).push(separator) + decimal((k * q) as nat)) == Ok::<
            Seq<char>,
            ProviderErrorModel,
        >(decimal(p as nat).push(':') + decimal(q as nat)),
{
    let (w, h) = ((k * p) as u32, (k * q) as u32);
    let size = decimal(w as nat).push(separator) + decimal(h as nat);
    written_size_reads_back(w, h);
    written_ratio_reads_back(w, h);
    lemma_supported_bounds(p as int, q as int);
    assert(w > 0 && h > 0 && w * q == h * p) by (nonlinear_arith)
        requires
            w == k * p,
            h == k * q,
            k > 0,
            p > 0,
            q > 0,
    ;
    assert(size == ratio_text(w as int, h as int) || separator != ':');
    size_is_reduced(size, p, q);
}

/// A size that cannot be read is refused in these words.
pub proof fn unreadable_size_is_told(size: Seq<char>)
    requires
        dims(size) is None,
    ensures
        aspect_ratio(size) == Err::<Seq<char>, ProviderErrorModel>(
            ProviderErrorModel::BadRequest(
                "size must be `WxH` or `W:H`; got "@ + quoted(size)
                    + ". Supported aspect ratios: "@
                    + SUPPORTED_LIST@,
            ),
        ),
{
}

/// A size with a dimension of 0 is refused in these words.
pub proof fn zero_size_is_told(size: Seq<char>)
    requires
        dims(size) matches Some((w, h, _)) && (w == 0 || h == 0),
    ensures
        aspect_ratio(size) == Err::<Seq<char>, ProviderErrorModel>(
            ProviderErrorModel::BadRequest(
                "size dimensions must be > 0; got "@ + quoted(size)
                    + ". Supported aspect ratios: "@
                    + SUPPORTED_LIST@,
            ),
        ),
{
}

/// A ratio that is not accepted is named as it was given.
pub proof fn refused_ratio_is_named_as_given(size: Seq<char>)
    requires
        dims(size) matches Some((w, h, was_ratio)) && w > 0 && h > 0 && was_ratio,
        aspect_ratio(size) is Err,
    ensures
        dims(size) matches Some((w, h, _)) && aspect_ratio(size) == Err::<
            Seq<char>,
            ProviderErrorModel,
        >(
            ProviderErrorModel::BadRequest(
                "aspect ratio "@ + (decimal(w as nat).push(':') + decimal(h as nat))
                    + " is not supported by Stability AI. Supported aspect ratios: "@
                    + SUPPORTED_LIST@,
            ),
        ),
{
}

/// A pixel size whose ratio is not accepted is refused with that ratio in
/// lowest terms, and as it was given.
pub proof fn refused_pixel_size_is_named_in_lowest_terms(size: Seq<char>, p: nat, q: nat, k: nat)
    requires
        gcd_of(p, q) == 1,
        k > 0,
        dims(size) matches Some((w, h, was_ratio)) && w > 0 && h > 0 && !was_ratio && w == k * p
            && h == k * q,
        !is_supported(p as int, q as int),
    ensures
        aspect_ratio(size) == Err::<Seq<char>, ProviderErrorModel>(
            ProviderErrorModel::BadRequest(
                "aspect ratio "@ + (decimal(p).push(':') + decimal(q)) + " (from size "@ + quoted(
                    size,
                ) + ") is not supported by Stability AI. Supported aspect ratios: "@
                    + SUPPORTED_LIST@,
            ),
        ),
{
    let (w, h, _) = dims(size)->Some_0;
    gcd_scales(k, p, q);
    lemma_ratio_of(w as int, h as int);
    let (rw, rh) = ratio_of(w as int, h as int, false);
    assert(rw == p && rh == q) by (nonlinear_arith)
        requires
            w == k * p,
            h == k * q,
            w == k * rw,
            h == k * rh,
            k > 0,
    ;
}

}
