//! Numbers of bytes, as people read them.

use vstd::prelude::*;

use super::number::{append_u64, decimal, u64_text};

verus! {

/// The integer nearest to `n / d`, the even one of two that are equally near.
pub open spec fn rounded(n: nat, d: nat) -> nat {
    let q = n / d;
    let r = n % d;
    if 2 * r > d || (2 * r == d && q % 2 == 1) {
        q + 1
    } else {
        q
    }
}

/// The distance between the numbers of 53 significant bits around `n`.
pub open spec fn spacing(n: nat) -> nat
    decreases n,
{
    if n < 0x20_0000_0000_0000 {
        1
    } else {
        2 * spacing(n / 2)
    }
}

/// The number of 53 significant bits nearest to `n`, the even one of two that are equally near.
pub open spec fn nearest(n: nat) -> nat {
    rounded(n, spacing(n)) * spacing(n)
}

/// The bytes of each unit.
pub open spec fn unit_size(unit: nat) -> nat {
    if unit == 0 {
        1
    } else if unit == 1 {
        0x400
    } else if unit == 2 {
        0x10_0000
    } else if unit == 3 {
        0x4000_0000
    } else {
        0x100_0000_0000
    }
}

/// The largest unit of which `m` bytes make at least one.
pub open spec fn unit_of(m: nat) -> nat {
    if m < 0x400 {
        0
    } else if m < 0x10_0000 {
        1
    } else if m < 0x4000_0000 {
        2
    } else if m < 0x100_0000_0000 {
        3
    } else {
        4
    }
}

/// The names of the units.
pub open spec fn unit_name(unit: nat) -> Seq<char> {
    if unit == 0 {
        " Б"@
    } else if unit == 1 {
        " КБ"@
    } else if unit == 2 {
        " МБ"@
    } else if unit == 3 {
        " ГБ"@
    } else {
        " ТБ"@
    }
}

/// A number of bytes in the largest unit that it fills, with one decimal; bytes as they are.
pub open spec fn bytes_text(bytes: u64) -> Seq<char> {
    let m = nearest(bytes as nat);
    let unit = unit_of(m);
    if unit == 0 {
        decimal(bytes as nat) + " Б"@
    } else {
        let tenths = rounded(m * 10, unit_size(unit));
        decimal(tenths / 10) + "."@ + decimal(tenths % 10) + unit_name(unit)
    }
}

proof fn spacing_fits(n: nat)
    requires
        n <= u64::MAX,
    ensures
        1 <= spacing(n) <= 0x800,
        n < 0x20_0000_0000_0000 * spacing(n),
        n >= 0x20_0000_0000_0000 ==> n >= 0x10_0000_0000_0000 * spacing(n),
{
    reveal_with_fuel(spacing, 13);
}

/// A number of bytes is shown in the largest of five units, each 1024 times the one before, of which
/// it makes at least one: below 1024 as it is, and otherwise in the nearest number of tenths, which
/// is returned.
pub proof fn bytes_are_shown_in_the_nearest_tenths(bytes: u64) -> (tenths: nat)
    requires
        bytes < 0x20_0000_0000_0000,
    ensures
        bytes < 1024 ==> bytes_text(bytes) == decimal(bytes as nat) + " Б"@,
        1024 <= bytes < 1024 * 1024 ==> bytes_text(bytes) == decimal(tenths / 10) + "."@ + decimal(
            tenths % 10,
        ) + " КБ"@ && -1024 <= 2 * (10 * bytes - tenths * 1024) <= 1024,
        1024 * 1024 <= bytes < 1024 * 1024 * 1024 ==> bytes_text(bytes) == decimal(tenths / 10)
            + "."@ + decimal(tenths % 10) + " МБ"@ && -(1024 * 1024) <= 2 * (10 * bytes - tenths * (
        1024 * 1024)) <= 1024 * 1024,
        1024 * 1024 * 1024 <= bytes < 1024 * 1024 * 1024 * 1024 ==> bytes_text(bytes) == decimal(
            tenths / 10,
        ) + "."@ + decimal(tenths % 10) + " ГБ"@ && -(1024 * 1024 * 1024) <= 2 * (10 * bytes
            - tenths * (1024 * 1024 * 1024)) <= 1024 * 1024 * 1024,
        1024 * 1024 * 1024 * 1024 <= bytes ==> bytes_text(bytes) == decimal(tenths / 10) + "."@
            + decimal(tenths % 10) + " ТБ"@ && -(1024 * 1024 * 1024 * 1024) <= 2 * (10 * bytes
            - tenths * (1024 * 1024 * 1024 * 1024)) <= 1024 * 1024 * 1024 * 1024,
{
    let n = bytes as nat;
    assert(spacing(n) == 1);
    assert(n % 1 == 0);
    assert(n / 1 == n);
    assert(rounded(n, 1) == n);
    assert(nearest(n) == n);
    let size = unit_size(unit_of(n));
    nearest_is_near(n * 10, size);
    rounded(n * 10, size)
}

/// Rounding is off by at most half of a unit, hits what is exact, and takes the even one of two
/// numbers that are equally near.
pub proof fn nearest_is_near(n: nat, d: nat)
    requires
        d > 0,
    ensures
        -(d as int) <= 2 * (n - rounded(n, d) * d) <= d,
        n % d == 0 ==> rounded(n, d) * d == n,
        2 * (n % d) == d ==> rounded(n, d) % 2 == 0,
{
    let q = n / d;
    let r = n % d;
    assert(n == q * d + r && r < d) by (nonlinear_arith)
        requires
            q == n / d,
            r == n % d,
            d > 0,
    ;
    assert((q + 1) * d == q * d + d) by (nonlinear_arith);
}

/// A number of more than 53 bits is first taken to the nearest one that has 53 significant bits,
/// which is returned, and that is shown in the nearest tenths.
pub proof fn large_numbers_have_53_bits(bytes: u64) -> (near: nat)
    requires
        bytes >= 0x20_0000_0000_0000,
    ensures
        spacing(bytes as nat) * 0x10_0000_0000_0000 <= bytes < spacing(bytes as nat)
            * 0x20_0000_0000_0000,
        near % spacing(bytes as nat) == 0,
        -(spacing(bytes as nat) as int) <= 2 * (bytes - near) <= spacing(bytes as nat),
        bytes_text(bytes) == decimal(rounded(near * 10, 1024 * 1024 * 1024 * 1024) / 10) + "."@
            + decimal(rounded(near * 10, 1024 * 1024 * 1024 * 1024) % 10) + " ТБ"@,
{
    let n = bytes as nat;
    let d = spacing(n);
    spacing_fits(n);
    nearest_is_near(n, d);
    let q = rounded(n, d);
    assert(q * d % d == 0) by (nonlinear_arith)
        requires
            d > 0,
    ;
    nearest(n)
}

fn spacing_of(n: u64) -> (r: u64)
    ensures
        r == spacing(n as nat),
        1 <= r <= 0x800,
{
    let mut rest: u64 = n;
    let mut unit: u64 = 1;
    proof {
        spacing_fits(n as nat);
    }
    while rest >= 0x20_0000_0000_0000
        invariant
            unit >= 1,
            spacing(n as nat) <= 0x800,
            unit * spacing(rest as nat) == spacing(n as nat),
            spacing(rest as nat) >= 1,
        decreases rest,
    {
        let half: u64 = rest / 2;
        proof {
            spacing_fits(half as nat);
            assert(spacing(rest as nat) == 2 * spacing(half as nat));
            assert(unit * (2 * spacing(half as nat)) == (2 * unit) * spacing(half as nat))
                by (nonlinear_arith);
            assert(2 * unit <= (2 * unit) * spacing(half as nat)) by (nonlinear_arith)
                requires
                    spacing(half as nat) >= 1,
                    unit >= 1,
            ;
        }
        unit = 2 * unit;
        rest = half;
    }
    assert(unit * 1 == unit);
    unit
}

fn round_even(n: u128, d: u128) -> (r: u128)
    requires
        0 < d <= 0x100_0000_0000,
        n <= 0x1_0000_0000_0000_0000_0000,
    ensures
        r == rounded(n as nat, d as nat),
        r <= n,
{
    let q: u128 = n / d;
    let rest: u128 = n % d;
    proof {
        assert(q <= n) by (nonlinear_arith)
            requires
                q == n / d,
                d > 0,
        ;
        assert(rest > 0 ==> q < n || d == 1) by (nonlinear_arith)
            requires
                q == n / d,
                rest == n % d,
                d > 0,
        ;
    }
    if 2 * rest > d || (2 * rest == d && q % 2 == 1) {
        q + 1
    } else {
        q
    }
}

fn nearest_of(bytes: u64) -> (r: u128)
    ensures
        r == nearest(bytes as nat),
        r <= 0x1_0000_0000_0000_0000,
        (r < 0x400) == (bytes < 0x400),
{
    let unit: u64 = spacing_of(bytes);
    proof {
        spacing_fits(bytes as nat);
    }
    let q: u128 = round_even(bytes as u128, unit as u128);
    proof {
        let n = bytes as nat;
        let d = unit as nat;
        if n < 0x20_0000_0000_0000 {
            assert(d == 1);
            assert(n % 1 == 0);
            assert(n / 1 == n);
            assert(rounded(n, 1) == n);
        } else {
            assert(n / d <= 0x20_0000_0000_0000 - 1) by (nonlinear_arith)
                requires
                    n < 0x20_0000_0000_0000 * d,
                    d >= 1,
            ;
            assert(n / d >= 0x10_0000_0000_0000) by (nonlinear_arith)
                requires
                    n >= 0x10_0000_0000_0000 * d,
                    d >= 1,
            ;
        }
        assert(q <= 0x20_0000_0000_0000);
        assert(q * unit <= 0x20_0000_0000_0000 * 0x800) by (nonlinear_arith)
            requires
                q <= 0x20_0000_0000_0000,
                1 <= unit <= 0x800,
        ;
        assert(q * unit >= q) by (nonlinear_arith)
            requires
                1 <= unit,
        ;
    }
    q * (unit as u128)
}

/// A number of bytes, as people read it.
pub fn format_bytes(bytes: u64) -> (r: String)
    ensures
        r@ == bytes_text(bytes),
{
    let m: u128 = nearest_of(bytes);
    if m < 0x400 {
        let mut text = u64_text(bytes);
        text.append(" Б");
        return text;
    }
    let size: u128 = if m < 0x10_0000 {
        0x400
    } else if m < 0x4000_0000 {
        0x10_0000
    } else if m < 0x100_0000_0000 {
        0x4000_0000
    } else {
        0x100_0000_0000
    };
    let tenths: u128 = round_even(m * 10, size);
    proof {
        let n = (m * 10) as nat;
        let d = size as nat;
        assert(n / d <= 0x280_0000_0000_0000) by (nonlinear_arith)
            requires
                n <= 0xa_0000_0000_0000_0000,
                d >= 0x400,
        ;
    }
    let mut text = u64_text((tenths / 10) as u64);
    text.append(".");
    append_u64(&mut text, (tenths % 10) as u64);
    if m < 0x10_0000 {
        text.append(" КБ");
    } else if m < 0x4000_0000 {
        text.append(" МБ");
    } else if m < 0x100_0000_0000 {
        text.append(" ГБ");
    } else {
        text.append(" ТБ");
    }
    text
}

} // verus!
