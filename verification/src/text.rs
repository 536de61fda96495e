//! Rendering of integers and booleans as text, as used in reasons, header
//! values and signed payloads.

use vstd::prelude::*;
use vstd::arithmetic::div_mod::lemma_fundamental_div_mod_converse;

verus! {

/// The ASCII digit for `d` (meaningful for `0 <= d < 10`).
pub open spec fn digit_char(d: int) -> char {
    if d == 0 { '0' }
    else if d == 1 { '1' }
    else if d == 2 { '2' }
    else if d == 3 { '3' }
    else if d == 4 { '4' }
    else if d == 5 { '5' }
    else if d == 6 { '6' }
    else if d == 7 { '7' }
    else if d == 8 { '8' }
    else { '9' }
}

/// Decimal digits of a natural number, most significant first, without
/// leading zeros (`0` renders as `"0"`).
pub open spec fn decimal(n: nat) -> Seq<char>
    decreases n,
{
    if n < 10 {
        seq![digit_char(n as int)]
    } else {
        decimal(n / 10).push(digit_char((n % 10) as int))
    }
}

/// Decimal rendering of an integer, with a leading `-` when negative.
pub open spec fn signed_decimal(n: int) -> Seq<char> {
    if n < 0 {
        seq!['-'] + decimal((-n) as nat)
    } else {
        decimal(n as nat)
    }
}

/// `true` or `false`, as Rust prints a `bool`.
pub open spec fn bool_text(b: bool) -> Seq<char> {
    if b { "true"@ } else { "false"@ }
}

pub fn digit_str(d: u128) -> (s: &'static str)
    requires
        d < 10,
    ensures
        s@ == seq![digit_char(d as int)],
{
    proof {
        reveal_strlit("0");
        reveal_strlit("1");
        reveal_strlit("2");
        reveal_strlit("3");
        reveal_strlit("4");
        reveal_strlit("5");
        reveal_strlit("6");
        reveal_strlit("7");
        reveal_strlit("8");
        reveal_strlit("9");
    }
    if d == 0 { "0" }
    else if d == 1 { "1" }
    else if d == 2 { "2" }
    else if d == 3 { "3" }
    else if d == 4 { "4" }
    else if d == 5 { "5" }
    else if d == 6 { "6" }
    else if d == 7 { "7" }
    else if d == 8 { "8" }
    else { "9" }
}

/// Appends the decimal digits of `n` to `out`.
pub fn push_decimal(out: &mut String, n: u128)
    ensures
        final(out)@ == old(out)@ + decimal(n as nat),
    decreases n,
{
    if n >= 10 {
        push_decimal(out, n / 10);
        let ghost mid = out@;
        out.append(digit_str(n % 10));
        assert(old(out)@ + decimal(n as nat) =~= mid + seq![digit_char((n % 10) as int)]);
    } else {
        out.append(digit_str(n));
    }
}

/// Appends the decimal rendering of a signed integer to `out`.
pub fn push_signed_decimal(out: &mut String, n: i64)
    ensures
        final(out)@ == old(out)@ + signed_decimal(n as int),
{
    if n < 0 {
        let ghost before = out@;
        out.append("-");
        proof { reveal_strlit("-"); }
        let magnitude: u128 = if n == i64::MIN {
            9223372036854775808u128
        } else {
            (-n) as u128
        };
        push_decimal(out, magnitude);
        assert(out@ =~= before + signed_decimal(n as int));
    } else {
        push_decimal(out, n as u128);
    }
}

/// Appends `true` or `false` to `out`.
pub fn push_bool(out: &mut String, b: bool)
    ensures
        final(out)@ == old(out)@ + bool_text(b),
{
    if b {
        out.append("true");
    } else {
        out.append("false");
    }
}

/// The digit a character stands for, or -1 if it is not an ASCII digit.
pub open spec fn digit_value(c: char) -> int {
    if c == '0' { 0 }
    else if c == '1' { 1 }
    else if c == '2' { 2 }
    else if c == '3' { 3 }
    else if c == '4' { 4 }
    else if c == '5' { 5 }
    else if c == '6' { 6 }
    else if c == '7' { 7 }
    else if c == '8' { 8 }
    else if c == '9' { 9 }
    else { -1 }
}

/// The number a string of decimal digits denotes, read left to right.
pub open spec fn read_decimal(s: Seq<char>) -> int
    decreases s.len(),
{
    if s.len() == 0 {
        0
    } else {
        10 * read_decimal(s.drop_last()) + digit_value(s.last())
    }
}

proof fn lemma_digit_reads_back(d: int)
    requires
        0 <= d < 10,
    ensures
        digit_value(digit_char(d)) == d,
{
}

/// Law (decimal text reads back): the rendering of `n` is a non-empty string
/// of ASCII digits, without a leading zero unless `n == 0`, that reads back
/// as `n`.
pub proof fn law_decimal_reads_back(n: nat)
    ensures
        decimal(n).len() >= 1,
        forall|i: int| 0 <= i < decimal(n).len() ==> 0 <= #[trigger] digit_value(decimal(n)[i]) <= 9,
        n > 0 ==> decimal(n)[0] != '0',
        read_decimal(decimal(n)) == n,
    decreases n,
{
    if n < 10 {
        assert(decimal(n) == seq![digit_char(n as int)]);
        assert(decimal(n).drop_last() =~= Seq::<char>::empty());
        assert(read_decimal(Seq::<char>::empty()) == 0);
        lemma_digit_reads_back(n as int);
    } else {
        law_decimal_reads_back(n / 10);
        let head = decimal(n / 10);
        let d = digit_char((n % 10) as int);
        assert(decimal(n) == head.push(d));
        assert(decimal(n).drop_last() =~= head);
        assert(decimal(n)[0] == head[0]);
        assert forall|i: int| 0 <= i < decimal(n).len() implies 0 <= #[trigger] digit_value(decimal(n)[i]) <= 9 by {
            if i < head.len() {
                assert(decimal(n)[i] == head[i]);
            }
        }
        lemma_digit_reads_back((n % 10) as int);
        assert(read_decimal(decimal(n)) == 10 * read_decimal(head) + digit_value(d));
        assert(n == 10 * (n / 10) + n % 10);
    }
}

/// Law (signed decimal text reads back): a negative number renders as `-`
/// followed by the rendering of its magnitude, any other number as its plain
/// rendering; either way the digits read back as the magnitude.
pub proof fn law_signed_decimal_reads_back(n: int)
    ensures
        n < 0 ==> signed_decimal(n)[0] == '-' && signed_decimal(n).drop_first() == decimal((-n) as nat)
            && read_decimal(signed_decimal(n).drop_first()) == -n,
        n >= 0 ==> signed_decimal(n) == decimal(n as nat) && read_decimal(signed_decimal(n)) == n,
{
    if n < 0 {
        law_decimal_reads_back((-n) as nat);
        assert(signed_decimal(n).drop_first() =~= decimal((-n) as nat));
    } else {
        law_decimal_reads_back(n as nat);
    }
}

/// Law (one decimal place rounds to the nearest tenth): the tenths printed
/// for `n / w` are within half a tenth of the exact value.
pub proof fn law_tenths_are_nearest(n: int, w: int)
    requires
        w > 0,
    ensures
        20 * n - w <= 2 * rounded_tenths(n, w) * w <= 20 * n + w,
{
    let q = (10 * n) / w;
    let r = (10 * n) % w;
    assert(10 * n == q * w + r && 0 <= r < w) by (nonlinear_arith)
        requires
            w > 0,
            q == (10 * n) / w,
            r == (10 * n) % w,
    ;
    let t = rounded_tenths(n, w);
    if t == q {
        assert(2 * r <= w);
        assert(2 * t * w == 20 * n - 2 * r) by (nonlinear_arith)
            requires
                10 * n == q * w + r,
                t == q,
        ;
    } else {
        assert(t == q + 1 && 2 * r >= w);
        assert(2 * t * w == 20 * n - 2 * r + 2 * w) by (nonlinear_arith)
            requires
                10 * n == q * w + r,
                t == q + 1,
        ;
    }
}

/// `n / w` to tenths, rounding half to even as Rust's `{:.1}` rounds an
/// exactly representable tie (meaningful for `w > 0`).
pub open spec fn rounded_tenths(n: int, w: int) -> int {
    let q = (10 * n) / w;
    let r = (10 * n) % w;
    if 2 * r > w || (2 * r == w && q % 2 == 1) {
        q + 1
    } else {
        q
    }
}

/// The rational `n / w` (with `n >= 0`, `w > 0`) printed with one decimal
/// place, as `{:.1}` prints it.
pub open spec fn one_decimal(n: int, w: int) -> Seq<char> {
    let t = rounded_tenths(n, w);
    decimal((t / 10) as nat) + "."@ + seq![digit_char(t % 10)]
}

/// Appends `(whole * w + frac) / w` with one decimal place.
pub fn push_one_decimal(out: &mut String, whole: u128, frac: u128, w: u64)
    requires
        w > 0,
        frac < w,
        whole < u128::MAX,
    ensures
        final(out)@ == old(out)@ + one_decimal(whole * w + frac, w as int),
{
    let w128 = w as u128;
    let scaled = 10 * frac;
    let a = scaled / w128;
    let b = scaled % w128;
    assert(a <= 9) by (nonlinear_arith)
        requires
            scaled == 10 * frac,
            frac < w128,
            a == scaled / w128,
            w128 > 0,
    {
        assert(scaled < 10 * w128);
    }
    let f: u128 = if 2 * b > w128 || (2 * b == w128 && a % 2 == 1) { a + 1 } else { a };
    let ghost n: int = whole * w + frac;
    proof {
        assert(scaled == a * w128 + b) by (nonlinear_arith)
            requires
                a == scaled / w128,
                b == scaled % w128,
                w128 > 0,
        ;
        assert(10 * n == (10 * whole + a) * w + b) by (nonlinear_arith)
            requires
                n == whole * w + frac,
                scaled == 10 * frac,
                scaled == a * w128 + b,
                w128 == w,
        ;
        lemma_fundamental_div_mod_converse(10 * n, w as int, 10 * whole + a, b as int);
        assert((10 * whole + a) % 2 == a % 2) by (nonlinear_arith);
        let t = rounded_tenths(n, w as int);
        assert(t == 10 * whole + f);
        lemma_fundamental_div_mod_converse(t, 10, whole + f / 10, (f % 10) as int);
    }
    push_decimal(out, whole + f / 10);
    out.append(".");
    proof {
        reveal_strlit(".");
    }
    out.append(digit_str(f % 10));
    assert(out@ =~= old(out)@ + one_decimal(n, w as int));
}

/// The decimal rendering of `n` as a new string.
pub fn u64_text(n: u64) -> (s: String)
    ensures
        s@ == decimal(n as nat),
{
    let mut s = String::new();
    push_decimal(&mut s, n as u128);
    assert(s@ =~= decimal(n as nat));
    s
}

/// The decimal rendering of `n` as a new string, as `i64::to_string` gives it.
pub fn i64_text(n: i64) -> (s: String)
    ensures
        s@ == signed_decimal(n as int),
{
    let mut s = String::new();
    push_signed_decimal(&mut s, n);
    assert(s@ =~= signed_decimal(n as int));
    s
}

} // verus!
