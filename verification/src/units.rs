//! How sizes and times are shown.

use vstd::prelude::*;
use vstd::string::*;

use crate::text::{append_decimal, decimal, digit_char};

verus! {

pub const KB: u64 = 1024;

pub const MB: u64 = 1048576;

pub const GB: u64 = 1073741824;

/// The numbers below this are exact in double precision.
pub const EXACT_BELOW: u64 = 9007199254740992;

/// The whole number nearest to `num / den`; of two that are equally near, the even one.
pub open spec fn nearest(num: nat, den: nat) -> nat {
    let q = num / den;
    let r = num % den;
    if 2 * r < den || (2 * r == den && q % 2 == 0) {
        q
    } else {
        q + 1
    }
}

/// The distance between numbers of double precision around `n`: one up to 53 bits, and
/// twice as much for each bit more.
pub open spec fn double_unit(n: nat) -> nat
    decreases n,
{
    if n < EXACT_BELOW {
        1
    } else {
        2 * double_unit(n / 2)
    }
}

/// `n` in double precision.
pub open spec fn as_double(n: nat) -> nat {
    nearest(n, double_unit(n)) * double_unit(n)
}

/// A number of bytes in hundredths of a unit.
pub open spec fn hundredths(bytes: nat, unit: nat) -> nat {
    nearest(100 * as_double(bytes), unit)
}

/// A number of hundredths, with two digits behind the point.
pub open spec fn two_places(h: nat) -> Seq<char> {
    decimal(h / 100) + "."@ + decimal(h % 100 / 10) + decimal(h % 10)
}

/// How a number of bytes is shown: in the largest unit of which it is at least one, with two
/// digits behind the point, or as bytes.
pub open spec fn bytes_text(bytes: u64) -> Seq<char> {
    if bytes >= GB {
        two_places(hundredths(bytes as nat, GB as nat)) + " GB"@
    } else if bytes >= MB {
        two_places(hundredths(bytes as nat, MB as nat)) + " MB"@
    } else if bytes >= KB {
        two_places(hundredths(bytes as nat, KB as nat)) + " KB"@
    } else {
        decimal(bytes as nat) + " B"@
    }
}

/// How a number of seconds is shown: in its two largest units.
pub open spec fn duration_text(secs: u64) -> Seq<char> {
    if secs < 60 {
        decimal(secs as nat) + "s"@
    } else if secs < 3600 {
        decimal((secs / 60) as nat) + "m "@ + decimal((secs % 60) as nat) + "s"@
    } else {
        decimal((secs / 3600) as nat) + "h "@ + decimal((secs % 3600 / 60) as nat) + "m"@
    }
}

fn round(num: u128, den: u128) -> (r: u128)
    requires
        0 < den <= 0x1_0000_0000,
        num <= 0x1_0000_0000_0000_0000_0000_0000,
    ensures
        r == nearest(num as nat, den as nat),
        r <= num + 1,
{
    let q: u128 = num / den;
    let rest: u128 = num % den;
    assert(q <= num) by (nonlinear_arith)
        requires
            q == num / den,
            den > 0,
    ;
    if 2 * rest < den || (2 * rest == den && q % 2 == 0) {
        q
    } else {
        q + 1
    }
}

fn spacing(n: u64) -> (r: u64)
    ensures
        r == double_unit(n as nat),
        1 <= r <= 4096,
        n >= 0x10_0000_0000_0000 ==> r * 0x10_0000_0000_0000 <= n,
    decreases n,
{
    if n < EXACT_BELOW {
        1
    } else {
        2 * spacing(n / 2)
    }
}

fn in_double(n: u64) -> (r: u128)
    ensures
        r == as_double(n as nat),
        r <= 0x2_0000_0000_0000_0000,
{
    let unit = spacing(n) as u128;
    let q = round(n as u128, unit);
    let ghost m = n as nat / unit as nat;
    assert(q <= m + 1);
    assert(m * unit <= n && m * unit + unit == (m + 1) * unit) by (nonlinear_arith)
        requires
            m == n as nat / unit as nat,
            unit > 0,
    ;
    assert(q * unit <= (m + 1) * unit) by (nonlinear_arith)
        requires
            q <= m + 1,
            unit > 0,
    ;
    q * unit
}

fn append_two_places(out: &mut String, h: u128)
    requires
        h <= u64::MAX,
    ensures
        final(out)@ == old(out)@ + two_places(h as nat),
{
    let h = h as u64;
    append_decimal(out, h / 100);
    out.append(".");
    append_decimal(out, h % 100 / 10);
    append_decimal(out, h % 10);
    assert(out@ =~= old(out)@ + two_places(h as nat));
}

fn append_in_unit(out: &mut String, bytes: u64, unit: u64)
    requires
        1024 <= unit <= 0x1_0000_0000,
    ensures
        final(out)@ == old(out)@ + two_places(hundredths(bytes as nat, unit as nat)),
{
    let whole = in_double(bytes);
    let h = round(100 * whole, unit as u128);
    let ghost num = 100 * whole;
    assert(num / unit as int <= num / 1024) by (nonlinear_arith)
        requires
            unit >= 1024,
            num >= 0,
    ;
    append_two_places(out, h);
}

/// How a number of bytes is shown.
pub fn format_bytes(bytes: u64) -> (r: String)
    ensures
        r@ == bytes_text(bytes),
{
    let mut r = String::new();
    if bytes >= GB {
        append_in_unit(&mut r, bytes, GB);
        r.append(" GB");
    } else if bytes >= MB {
        append_in_unit(&mut r, bytes, MB);
        r.append(" MB");
    } else if bytes >= KB {
        append_in_unit(&mut r, bytes, KB);
        r.append(" KB");
    } else {
        append_decimal(&mut r, bytes);
        r.append(" B");
    }
    assert(r@ =~= bytes_text(bytes));
    r
}

/// How a number of seconds is shown.
pub fn format_duration(secs: u64) -> (r: String)
    ensures
        r@ == duration_text(secs),
{
    let mut r = String::new();
    if secs < 60 {
        append_decimal(&mut r, secs);
        r.append("s");
    } else if secs < 3600 {
        append_decimal(&mut r, secs / 60);
        r.append("m ");
        append_decimal(&mut r, secs % 60);
        r.append("s");
    } else {
        append_decimal(&mut r, secs / 3600);
        r.append("h ");
        append_decimal(&mut r, secs % 3600 / 60);
        r.append("m");
    }
    assert(r@ =~= duration_text(secs));
    r
}

/// The number that is shown of a size is off by at most half a hundredth of its unit, as
/// long as the size is exact in double precision.
pub proof fn law_shown_size_is_near(bytes: nat, unit: nat)
    requires
        bytes < EXACT_BELOW,
        unit > 0,
    ensures
        2 * (hundredths(bytes, unit) * unit - 100 * bytes) <= unit,
        2 * (100 * bytes - hundredths(bytes, unit) * unit) <= unit,
{
    assert(as_double(bytes) == bytes) by {
        assert(bytes / 1 == bytes && bytes % 1 == 0);
        assert(nearest(bytes, 1) == bytes);
        assert(bytes * 1 == bytes) by (nonlinear_arith);
    }
    let num = 100 * bytes;
    let q = num / unit;
    let r = num % unit;
    assert(q * unit + r == num && 0 <= r < unit && (q + 1) * unit == q * unit + unit)
        by (nonlinear_arith)
        requires
            q == num / unit,
            r == num % unit,
            unit > 0,
    ;
}

/// Whether `h` is the whole number nearest to `num / den`, or, of two that are equally near,
/// the even one.
pub open spec fn is_nearest(num: nat, den: nat, h: nat) -> bool {
    let off = h * den - num;
    ||| -(den as int) < 2 * off && 2 * off < den
    ||| (2 * off == den || 2 * off == -(den as int)) && h % 2 == 0
}

proof fn lemma_nearest_is(num: nat, den: nat, h: nat)
    requires
        den > 0,
        is_nearest(num, den, h),
    ensures
        nearest(num, den) == h,
{
    let q = num / den;
    let r = num % den;
    assert(q * den + r == num && 0 <= r < den && (q + 1) * den == q * den + den)
        by (nonlinear_arith)
        requires
            q == num / den,
            r == num % den,
            den > 0,
    ;
    if h < q {
        assert(h * den + den <= q * den) by (nonlinear_arith)
            requires
                h + 1 <= q,
                den > 0,
        ;
    } else if h > q + 1 {
        assert(h * den >= q * den + 2 * den) by (nonlinear_arith)
            requires
                h >= q + 2,
                den > 0,
        ;
    }
}

/// The hundredths of a number as they are shown: the whole part, a point, and two digits.
pub open spec fn with_point(h: nat) -> Seq<char> {
    decimal(h / 100) + "."@ + seq![digit_char(h / 10 % 10), digit_char(h % 10)]
}

proof fn lemma_with_point(h: nat)
    ensures
        two_places(h) == with_point(h),
{
    assert(h % 100 / 10 == h / 10 % 10);
    assert(decimal(h % 100 / 10) == seq![digit_char(h / 10 % 10)]);
    assert(decimal(h % 10) == seq![digit_char(h % 10)]);
    assert(two_places(h) =~= with_point(h));
}

/// A size is shown in the largest unit of which it is at least one, rounded to the nearest
/// hundredth, with two digits behind the point. Below a kilobyte it is shown in bytes.
pub proof fn law_size_is_shown_in_its_unit(bytes: u64, h: nat)
    ensures
        bytes < 1024 ==> bytes_text(bytes) == decimal(bytes as nat) + " B"@,
        1024 <= bytes < 1048576 && is_nearest(100 * bytes as nat, 1024, h) ==> bytes_text(bytes)
            == with_point(h) + " KB"@,
        1048576 <= bytes < 1073741824 && is_nearest(100 * bytes as nat, 1048576, h) ==> bytes_text(
            bytes,
        ) == with_point(h) + " MB"@,
        1073741824 <= bytes && is_nearest(100 * as_double(bytes as nat), 1073741824, h)
            ==> bytes_text(bytes) == with_point(h) + " GB"@,
{
    lemma_with_point(h);
    if bytes < 1073741824 {
        lemma_exact(bytes as nat);
    }
    let d = as_double(bytes as nat);
    if is_nearest(100 * d, 1024, h) {
        lemma_nearest_is(100 * d, 1024, h);
    }
    if is_nearest(100 * d, 1048576, h) {
        lemma_nearest_is(100 * d, 1048576, h);
    }
    if is_nearest(100 * d, 1073741824, h) {
        lemma_nearest_is(100 * d, 1073741824, h);
    }
}

proof fn lemma_exact(n: nat)
    requires
        n < EXACT_BELOW,
    ensures
        as_double(n) == n,
{
    assert(n / 1 == n && n % 1 == 0);
    assert(nearest(n, 1) == n);
    assert(n * 1 == n) by (nonlinear_arith);
}

/// Double precision has 53 bits: a number below 2^53 is exact; of a greater one that many bits
/// are kept, and it is rounded to the nearest multiple of the distance between such numbers,
/// of two that are equally near to the one whose last bit is zero.
pub proof fn law_double_has_53_bits(n: nat)
    ensures
        n < 9007199254740992 ==> as_double(n) == n && double_unit(n) == 1,
        n >= 9007199254740992 ==> double_unit(n) == 2 * double_unit(n / 2),
        double_unit(n) > 0,
        n >= 9007199254740992 ==> 4503599627370496 * double_unit(n) <= n < 9007199254740992
            * double_unit(n),
        exists|h: nat| #[trigger] is_nearest(n, double_unit(n), h) && as_double(n) == h
            * double_unit(n),
    decreases n,
{
    if n < EXACT_BELOW {
        lemma_exact(n);
        assert(n * 1 == n) by (nonlinear_arith);
        assert(is_nearest(n, 1, n));
    } else {
        law_double_has_53_bits(n / 2);
        lemma_nearest_holds(n, double_unit(n));
    }
}

proof fn lemma_nearest_holds(num: nat, den: nat)
    requires
        den > 0,
    ensures
        is_nearest(num, den, nearest(num, den)),
{
    let q = num / den;
    let r = num % den;
    assert(q * den + r == num && 0 <= r < den && (q + 1) * den == q * den + den)
        by (nonlinear_arith)
        requires
            q == num / den,
            r == num % den,
            den > 0,
    ;
}

/// A time of hours, minutes and seconds is shown by its two largest units: hours and minutes
/// from an hour on, minutes and seconds from a minute on, and seconds below.
pub proof fn law_duration_shows_two_units(secs: u64, hours: nat, minutes: nat, seconds: nat)
    requires
        secs == 3600 * hours + 60 * minutes + seconds,
        minutes < 60,
        seconds < 60,
    ensures
        hours > 0 ==> duration_text(secs) == decimal(hours) + "h "@ + decimal(minutes) + "m"@,
        hours == 0 && minutes > 0 ==> duration_text(secs) == decimal(minutes) + "m "@ + decimal(
            seconds,
        ) + "s"@,
        hours == 0 && minutes == 0 ==> duration_text(secs) == decimal(seconds) + "s"@,
{
}

} // verus!
