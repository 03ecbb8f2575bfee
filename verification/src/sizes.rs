//! Human-readable byte counts ("1.50KB").

use vstd::prelude::*;
use crate::text::{decimal, digit_char, digit_of, empty_string, push_all, push_char, push_decimal};

verus! {

/// `1024` to the power `k`.
pub open spec fn pow1024(k: nat) -> nat
    decreases k,
{
    if k == 0 {
        1
    } else {
        1024 * pow1024((k - 1) as nat)
    }
}

/// The unit a byte count is shown in: the largest `k <= 8` with `1024^k <= b`
/// (0, i.e. plain bytes, for counts below 1024, zero included).
pub open spec fn unit_index(b: nat) -> nat {
    if b < 0x400 {
        0
    } else if b < 0x10_0000 {
        1
    } else if b < 0x4000_0000 {
        2
    } else if b < 0x100_0000_0000 {
        3
    } else if b < 0x4_0000_0000_0000 {
        4
    } else if b < 0x1000_0000_0000_0000 {
        5
    } else if b < 0x40_0000_0000_0000_0000 {
        6
    } else if b < 0x1_0000_0000_0000_0000_0000 {
        7
    } else {
        8
    }
}

/// The symbol of unit `k`.
pub open spec fn unit_name(k: nat) -> Seq<char> {
    if k == 0 {
        "B"@
    } else if k == 1 {
        "KB"@
    } else if k == 2 {
        "MB"@
    } else if k == 3 {
        "GB"@
    } else if k == 4 {
        "TB"@
    } else if k == 5 {
        "PB"@
    } else if k == 6 {
        "EB"@
    } else if k == 7 {
        "ZB"@
    } else {
        "YB"@
    }
}

/// `n / d` rounded to the nearest integer, ties to the even one.
pub open spec fn round_half_even(n: nat, d: nat) -> nat
    recommends
        d > 0,
{
    let q = n / d;
    let r = n % d;
    if 2 * r > d {
        q + 1
    } else if 2 * r < d {
        q
    } else if q % 2 == 0 {
        q
    } else {
        q + 1
    }
}

/// A count of hundredths written with two decimals ("12.05" for 1205).
pub open spec fn two_decimals(h: nat) -> Seq<char> {
    decimal(h / 100) + seq!['.', digit_char((h % 100) / 10), digit_char(h % 10)]
}

/// `b` bytes in its unit: the amount with two decimals, rounded half to even, then the
/// unit symbol; plain counts below 1024 are written without decimals unless
/// `fixed_decimals`.
pub open spec fn bytes_text(b: nat, fixed_decimals: bool) -> Seq<char> {
    let k = unit_index(b);
    if k == 0 && !fixed_decimals {
        decimal(b) + unit_name(0)
    } else {
        two_decimals(round_half_even(b * 100, pow1024(k))) + unit_name(k)
    }
}

/// The unit chosen for a positive count is the largest power of 1024 not above it.
pub proof fn lemma_unit_index_bounds(b: nat)
    requires
        b >= 1,
        b < pow1024(8),
    ensures
        pow1024(unit_index(b)) <= b < pow1024(unit_index(b) + 1),
        unit_index(b) < 8,
{
    reveal_with_fuel(pow1024, 9);
}

fn unit_symbol(s: &mut String, k: usize)
    requires
        k <= 8,
    ensures
        final(s)@ == old(s)@ + unit_name(k as nat),
{
    if k == 0 {
        push_all(s, "B");
    } else if k == 1 {
        push_all(s, "KB");
    } else if k == 2 {
        push_all(s, "MB");
    } else if k == 3 {
        push_all(s, "GB");
    } else if k == 4 {
        push_all(s, "TB");
    } else if k == 5 {
        push_all(s, "PB");
    } else if k == 6 {
        push_all(s, "EB");
    } else if k == 7 {
        push_all(s, "ZB");
    } else {
        push_all(s, "YB");
    }
}

/// Formats a byte count, as the panels and the info view show it.
pub fn format_bytes(bytes: u64, fixed_decimals: bool) -> (s: String)
    ensures
        s@ == bytes_text(bytes as nat, fixed_decimals),
{
    let b: u128 = bytes as u128;
    let ghost bn: nat = bytes as nat;
    proof {
        reveal_with_fuel(pow1024, 9);
    }
    let (k, d): (usize, u128) = if b < 0x400 {
        (0, 1)
    } else if b < 0x10_0000 {
        (1, 0x400)
    } else if b < 0x4000_0000 {
        (2, 0x10_0000)
    } else if b < 0x100_0000_0000 {
        (3, 0x4000_0000)
    } else if b < 0x4_0000_0000_0000 {
        (4, 0x100_0000_0000)
    } else if b < 0x1000_0000_0000_0000 {
        (5, 0x4_0000_0000_0000)
    } else {
        (6, 0x1000_0000_0000_0000)
    };
    assert(k as nat == unit_index(bn));
    assert(d as nat == pow1024(k as nat));
    let mut s = empty_string();
    if k == 0 && !fixed_decimals {
        push_decimal(&mut s, bytes);
        unit_symbol(&mut s, 0);
        assert(s@ == Seq::<char>::empty() + decimal(bn) + unit_name(0));
        assert(Seq::<char>::empty() + decimal(bn) + unit_name(0) == decimal(bn) + unit_name(0));
    } else {
        let n: u128 = b * 100;
        let q: u128 = n / d;
        let r: u128 = n % d;
        let h: u128 = if 2 * r > d {
            q + 1
        } else if 2 * r < d {
            q
        } else if q % 2 == 0 {
            q
        } else {
            q + 1
        };
        assert(h as nat == round_half_even(bn * 100, pow1024(k as nat)));
        assert(q <= n) by (nonlinear_arith)
            requires
                q == n / d,
                d >= 1,
        ;
        let whole: u64 = (h / 100) as u64;
        let tens: u64 = ((h % 100) / 10) as u64;
        let ones: u64 = (h % 10) as u64;
        push_decimal(&mut s, whole);
        push_char(&mut s, '.');
        push_char(&mut s, digit_of(tens));
        push_char(&mut s, digit_of(ones));
        unit_symbol(&mut s, k);
        let ghost hn: nat = h as nat;
        assert(s@ == Seq::<char>::empty() + decimal(hn / 100) + seq!['.'] + seq![digit_char((hn % 100) / 10)]
            + seq![digit_char(hn % 10)] + unit_name(k as nat)) by {
            assert(Seq::<char>::empty().push('.') == seq!['.']);
        }
        assert(Seq::<char>::empty() + decimal(hn / 100) + seq!['.'] + seq![digit_char((hn % 100) / 10)]
            + seq![digit_char(hn % 10)] + unit_name(k as nat) == two_decimals(hn) + unit_name(k as nat));
    }
    s
}

/// The readable form of a byte count: below 1024 the plain count ("512B"), above it the
/// amount in the largest fitting unit with two decimals ("1.50KB").
#[allow(non_snake_case)]
pub fn readableBytes(bytes: usize) -> (s: String)
    ensures
        s@ == bytes_text(bytes as nat, false),
{
    format_bytes(bytes as u64, false)
}

/// The symbols of the units, in order: bytes, then each further power of 1024.
pub open spec fn unit_symbols() -> Seq<Seq<char>> {
    seq!["B"@, "KB"@, "MB"@, "GB"@, "TB"@, "PB"@, "EB"@, "ZB"@]
}

/// A count of at least 1024 bytes is shown in the unit of the largest power of 1024 not
/// above it: the count divided by that power, to the nearest hundredth, then that power's
/// own symbol ("2.00GB" for 2 GiB). The fixed-decimals setting plays no part there.
pub proof fn lemma_bytes_text_in_unit(b: nat, fixed_decimals: bool, k: nat)
    requires
        1 <= k < 8,
        pow1024(k) <= b < pow1024(k + 1),
    ensures
        bytes_text(b, fixed_decimals) == two_decimals(round_half_even(b * 100, pow1024(k)))
            + unit_symbols()[k as int],
        bytes_text(b, fixed_decimals) == bytes_text(b, !fixed_decimals),
{
    reveal_with_fuel(pow1024, 9);
    assert(unit_index(b) == k);
    assert(unit_name(k) == unit_symbols()[k as int]);
}

/// A count below 1024 is shown in bytes: as a plain number, or with two zero decimals when
/// the decimals are fixed ("512B", "512.00B").
pub proof fn lemma_bytes_text_plain(b: nat, fixed_decimals: bool)
    requires
        b < 1024,
    ensures
        !fixed_decimals ==> bytes_text(b, fixed_decimals) == decimal(b) + unit_symbols()[0],
        fixed_decimals ==> bytes_text(b, fixed_decimals) == two_decimals(b * 100) + unit_symbols()[0],
{
    reveal_with_fuel(pow1024, 1);
    assert(unit_name(0) == unit_symbols()[0]);
    assert(round_half_even(b * 100, 1) == b * 100);
}

/// The amount shown is the nearest hundredth: `round_half_even(n, d)` is within half of `d`
/// of `n / d`, in units of `d`.
pub proof fn lemma_round_half_even_nearest(n: nat, d: nat)
    requires
        d > 0,
    ensures
        2 * round_half_even(n, d) * d <= 2 * n + d,
        2 * n <= 2 * round_half_even(n, d) * d + d,
{
    let q = n / d;
    let r = n % d;
    assert(n == q * d + r && 0 <= r < d) by (nonlinear_arith)
        requires
            q == n / d,
            r == n % d,
            d > 0,
    ;
    assert((q + 1) * d == q * d + d) by (nonlinear_arith);
    assert(2 * (q + 1) * d == 2 * (q * d) + 2 * d) by (nonlinear_arith);
    assert(2 * q * d == 2 * (q * d)) by (nonlinear_arith);
}

} // verus!
