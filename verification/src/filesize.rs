//! Human-readable byte counts and transfer speeds in binary units
//! (B, KB, MB, GB, TB, PB; one unit is 1024 of the one before).
//!
//! A count of 1024 bytes or more is turned into a double-precision value,
//! divided by 1024 per unit and printed with a fixed number of decimals,
//! the last one rounded half to even. All of that is computed here on
//! integers, exactly: the division by a power of two loses nothing, and the
//! conversion of the count to double precision is modelled by `f64_value`.

use vstd::prelude::*;
use crate::strutil::{decimal_chars, digit_char, push_char, push_decimal, push_str};

verus! {

/// `b` to the power `e`.
pub open spec fn pow_nat(b: nat, e: nat) -> nat
    decreases e,
{
    if e == 0 {
        1
    } else {
        b * pow_nat(b, (e - 1) as nat)
    }
}

/// `x / d` rounded to an integer, a tie going to the even neighbour.
pub open spec fn round_half_even(x: nat, d: nat) -> nat {
    let q = x / d;
    let r = x % d;
    if 2 * r > d || (2 * r == d && q % 2 == 1) {
        q + 1
    } else {
        q
    }
}

/// The last `p` decimal digits of `m`, with leading zeros.
pub open spec fn zero_padded(m: nat, p: nat) -> Seq<char>
    decreases p,
{
    if p == 0 {
        seq![]
    } else {
        zero_padded(m / 10, (p - 1) as nat).push(digit_char((m % 10) as int))
    }
}

/// `n / 10^p` written with `p` decimals.
pub open spec fn fixed_str(n: nat, p: nat) -> Seq<char> {
    if p == 0 {
        decimal_chars(n)
    } else {
        decimal_chars(n / pow_nat(10, p)) + seq!['.'] + zero_padded(n % pow_nat(10, p), p)
    }
}

/// The exact value `x / d` written with `p` decimals, the last one rounded
/// half to even (as `{:.p$}` prints a double that holds `x / d` exactly).
pub open spec fn fixed_point(x: nat, d: nat, p: nat) -> Seq<char> {
    fixed_str(round_half_even(x * pow_nat(10, p), d), p)
}

/// How many low bits of `n` a double cannot hold: 0 below `2^53`.
pub open spec fn f64_shift(n: nat) -> nat
    decreases n,
{
    if n < 0x20_0000_0000_0000 {
        0
    } else {
        1 + f64_shift(n / 2)
    }
}

/// The integer value of the double nearest to `n` (ties to even), which is
/// what `n as f64` holds.
pub open spec fn f64_value(n: nat) -> nat {
    let s = f64_shift(n);
    round_half_even(n, pow_nat(2, s)) * pow_nat(2, s)
}

/// The number of times a value of `v` is divided by 1024, starting from
/// unit `k`: while it is at least 1024 and a larger unit is left.
pub open spec fn unit_index(v: nat, k: nat) -> nat
    decreases 5 - k,
{
    if k < 5 && v >= pow_nat(1024, k + 1) {
        unit_index(v, k + 1)
    } else {
        k
    }
}

/// The suffix of binary unit `k`.
pub open spec fn unit_suffix(k: nat) -> Seq<char> {
    if k == 0 {
        seq!['B']
    } else if k == 1 {
        seq!['K', 'B']
    } else if k == 2 {
        seq!['M', 'B']
    } else if k == 3 {
        seq!['G', 'B']
    } else if k == 4 {
        seq!['T', 'B']
    } else {
        seq!['P', 'B']
    }
}

/// The text for `bytes` with `p` decimals: below 1024 the plain count and
/// `" B"`, else the value in the largest unit it reaches.
pub open spec fn format_size_spec(bytes: nat, p: nat) -> Seq<char> {
    if bytes < 1024 {
        decimal_chars(bytes) + seq![' ', 'B']
    } else {
        let v = f64_value(bytes);
        let k = unit_index(v, 0);
        fixed_point(v, pow_nat(1024, k), p) + seq![' '] + unit_suffix(k)
    }
}

/// The text for a speed of `bytes` per second.
pub open spec fn format_speed_spec(bytes: nat) -> Seq<char> {
    if bytes < 1024 {
        decimal_chars(bytes) + seq![' ', 'B', '/', 's']
    } else {
        let v = f64_value(bytes);
        let k = unit_index(v, 0);
        fixed_point(v, pow_nat(1024, k), 1) + seq![' '] + unit_suffix(k) + seq!['/', 's']
    }
}

/// The value of the decimal digits `ds`, most significant first.
pub open spec fn digits_value(ds: Seq<u8>) -> nat
    decreases ds.len(),
{
    if ds.len() == 0 {
        0
    } else {
        digits_value(ds.drop_last()) * 10 + ds.last() as nat
    }
}

/// The digit `d`, `t` times.
pub open spec fn repeat_digit(d: u8, t: nat) -> Seq<u8> {
    Seq::new(t, |i: int| d)
}

/// Whether every entry of `ds` is a decimal digit.
pub open spec fn all_digits(ds: Seq<u8>) -> bool {
    forall|i: int| 0 <= i < ds.len() ==> #[trigger] ds[i] < 10
}

proof fn lemma_pow_pos(b: nat, e: nat)
    requires
        b > 0,
    ensures
        pow_nat(b, e) > 0,
    decreases e,
{
    if e > 0 {
        lemma_pow_pos(b, (e - 1) as nat);
        assert(b * pow_nat(b, (e - 1) as nat) > 0) by (nonlinear_arith)
            requires
                b > 0,
                pow_nat(b, (e - 1) as nat) > 0,
        ;
    }
}

proof fn lemma_digits_value_bound(ds: Seq<u8>)
    requires
        all_digits(ds),
    ensures
        digits_value(ds) < pow_nat(10, ds.len()),
    decreases ds.len(),
{
    if ds.len() > 0 {
        let t = ds.drop_last();
        assert(all_digits(t)) by {
            assert forall|i: int| 0 <= i < t.len() implies #[trigger] t[i] < 10 by {
                assert(t[i] == ds[i]);
            }
        }
        lemma_digits_value_bound(t);
        let a = digits_value(t);
        let d = ds.last() as nat;
        assert(ds[ds.len() - 1] < 10);
        let pp = pow_nat(10, t.len());
        assert(a * 10 + d < 10 * pp) by (nonlinear_arith)
            requires
                a < pp,
                d < 10,
        ;
    }
}

proof fn lemma_zero_padded_digits(ds: Seq<u8>)
    requires
        all_digits(ds),
    ensures
        zero_padded(digits_value(ds), ds.len()) == ds.map_values(|d: u8| digit_char(d as int)),
    decreases ds.len(),
{
    if ds.len() > 0 {
        let t = ds.drop_last();
        assert(all_digits(t)) by {
            assert forall|i: int| 0 <= i < t.len() implies #[trigger] t[i] < 10 by {
                assert(t[i] == ds[i]);
            }
        }
        lemma_zero_padded_digits(t);
        let v = digits_value(ds);
        let d = ds.last() as nat;
        assert(ds[ds.len() - 1] < 10);
        assert(v / 10 == digits_value(t) && v % 10 == d) by {
            vstd::arithmetic::div_mod::lemma_fundamental_div_mod_converse(
                v as int,
                10,
                digits_value(t) as int,
                d as int,
            );
        }
        assert(ds.map_values(|d: u8| digit_char(d as int)) =~= t.map_values(
            |d: u8| digit_char(d as int),
        ).push(digit_char(d as int)));
    }
}

proof fn lemma_digits_value_push(ds: Seq<u8>, d: u8)
    ensures
        digits_value(ds.push(d)) == digits_value(ds) * 10 + d as nat,
{
    assert(ds.push(d).drop_last() =~= ds);
}

/// Trailing nines: the value of `ds` followed by `t` nines.
proof fn lemma_digits_value_nines(ds: Seq<u8>, t: nat)
    ensures
        digits_value(ds + repeat_digit(9, t)) + 1 == (digits_value(ds) + 1) * pow_nat(10, t),
    decreases t,
{
    if t == 0 {
        assert(ds + repeat_digit(9, t) =~= ds);
        assert(pow_nat(10, t) == 1);
        assert((digits_value(ds) + 1) * pow_nat(10, t) == digits_value(ds) + 1);
    } else {
        let t1 = (t - 1) as nat;
        lemma_digits_value_nines(ds, t1);
        assert(pow_nat(10, t) == 10 * pow_nat(10, t1));
        let s1 = ds + repeat_digit(9, t1);
        assert(ds + repeat_digit(9, t) =~= s1.push(9u8));
        lemma_digits_value_push(s1, 9u8);
        let a = digits_value(s1);
        let b = digits_value(ds) + 1;
        let pp = pow_nat(10, t1);
        let pt = pow_nat(10, t);
        assert(a * 10 + 9 + 1 == b * pt) by (nonlinear_arith)
            requires
                a + 1 == b * pp,
                pt == 10 * pp,
        ;
        assert(digits_value(ds + repeat_digit(9, t)) == a * 10 + 9);
    }
}

/// Trailing zeros: the value of `ds` followed by `t` zeros.
proof fn lemma_digits_value_zeros(ds: Seq<u8>, t: nat)
    ensures
        digits_value(ds + repeat_digit(0, t)) == digits_value(ds) * pow_nat(10, t),
    decreases t,
{
    if t == 0 {
        assert(ds + repeat_digit(0, t) =~= ds);
        assert(pow_nat(10, t) == 1);
        assert(digits_value(ds) * pow_nat(10, t) == digits_value(ds));
    } else {
        let t1 = (t - 1) as nat;
        lemma_digits_value_zeros(ds, t1);
        assert(pow_nat(10, t) == 10 * pow_nat(10, t1));
        let s1 = ds + repeat_digit(0, t1);
        assert(ds + repeat_digit(0, t) =~= s1.push(0u8));
        lemma_digits_value_push(s1, 0u8);
        let a = digits_value(s1);
        let b = digits_value(ds);
        let pp = pow_nat(10, t1);
        let pt = pow_nat(10, t);
        assert(a * 10 == b * pt) by (nonlinear_arith)
            requires
                a == b * pp,
                pt == 10 * pp,
        ;
        assert(digits_value(ds + repeat_digit(0, t)) == a * 10);
    }
}

/// Adds one to the number `ip` followed by the decimals `frac`, carrying
/// through trailing nines.
fn increment_fixed(ip: &mut u128, frac: &mut Vec<u8>)
    requires
        *old(ip) < 0x1_0000_0000_0000_0000_0000,
        all_digits(old(frac)@),
    ensures
        all_digits(final(frac)@),
        final(frac)@.len() == old(frac)@.len(),
        *final(ip) <= *old(ip) + 1,
        *final(ip) * pow_nat(10, final(frac)@.len()) + digits_value(final(frac)@) == *old(ip) * pow_nat(
            10,
            old(frac)@.len(),
        ) + digits_value(old(frac)@) + 1,
{
    let n = frac.len();
    let mut j: usize = n;
    while j > 0 && frac[j - 1] == 9
        invariant
            j <= n,
            n == frac.len(),
            n == old(frac)@.len(),
            frac@.subrange(0, j as int) == old(frac)@.subrange(0, j as int),
            forall|i: int| j <= i < n ==> old(frac)@[i] == 9,
            forall|i: int| j <= i < n ==> frac@[i] == 0,
            all_digits(old(frac)@),
            all_digits(frac@),
            *ip == *old(ip),
        decreases j,
    {
        assert(frac@[j - 1] == frac@.subrange(0, j as int)[j - 1]);
        assert(old(frac)@[j - 1] == old(frac)@.subrange(0, j as int)[j - 1]);
        let ghost before = frac@;
        frac.set(j - 1, 0);
        j = j - 1;
        assert(frac@.subrange(0, j as int) =~= before.subrange(0, j as int));
        assert(old(frac)@.subrange(0, j as int) =~= old(frac)@.subrange(0, j + 1).subrange(0, j as int));
        assert(before.subrange(0, j as int) =~= before.subrange(0, j + 1).subrange(0, j as int));
    }
    let ghost t = (n - j) as nat;
    let ghost pre = old(frac)@.subrange(0, j as int);
    assert(old(frac)@ =~= pre + repeat_digit(9, t));
    assert(frac@.subrange(j as int, n as int) =~= repeat_digit(0, t));
    proof {
        lemma_digits_value_nines(pre, t);
        lemma_pow_pos(10, t);
    }
    if j == 0 {
        assert(frac@ =~= Seq::<u8>::empty() + repeat_digit(0, t));
        proof {
            lemma_digits_value_zeros(Seq::<u8>::empty(), t);
            assert(pre =~= Seq::<u8>::empty());
        }
        let ghost ip0 = *ip as nat;
        *ip = *ip + 1;
        let ghost pp = pow_nat(10, t);
        assert(digits_value(Seq::<u8>::empty()) == 0);
        assert(digits_value(Seq::<u8>::empty()) * pp == 0) by (nonlinear_arith)
            requires
                digits_value(Seq::<u8>::empty()) == 0,
        ;
        assert(digits_value(frac@) == 0);
        assert((digits_value(pre) + 1) * pp == pp) by (nonlinear_arith)
            requires
                digits_value(pre) == 0,
        ;
        assert(digits_value(old(frac)@) + 1 == pp);
        assert((ip0 + 1) * pp == ip0 * pp + pp) by (nonlinear_arith);
        assert(t == frac@.len());
    } else {
        let d = frac[j - 1];
        assert(d < 10 && d != 9);
        frac.set(j - 1, d + 1);
        let ghost pre2 = pre.drop_last().push((d + 1) as u8);
        assert(pre =~= pre.drop_last().push(d));
        assert(frac@ =~= pre2 + repeat_digit(0, t));
        proof {
            lemma_digits_value_zeros(pre2, t);
            lemma_digits_value_push(pre.drop_last(), d);
            lemma_digits_value_push(pre.drop_last(), (d + 1) as u8);
            assert forall|i: int| 0 <= i < frac@.len() implies #[trigger] frac@[i] < 10 by {
                if i < j - 1 {
                    assert(frac@[i] == old(frac)@[i]);
                }
            }
        }
        let ghost pp = pow_nat(10, n as nat);
        let ghost pt = pow_nat(10, t);
        assert(digits_value(frac@) == digits_value(old(frac)@) + 1) by {
            assert(digits_value(pre2) == digits_value(pre) + 1);
            assert((digits_value(pre) + 1) * pt == digits_value(pre) * pt + pt) by (nonlinear_arith);
        }
    }
}

/// `x / d` written with `p` decimals, rounded half to even.
fn format_fixed(x: u128, d: u128, p: usize) -> (r: String)
    requires
        1024 <= d <= 0x4_0000_0000_0000,
        x < 0x2_0000_0000_0000_0000,
    ensures
        r@ == fixed_point(x as nat, d as nat, p as nat),
{
    let mut ip: u128 = x / d;
    let mut rem: u128 = x % d;
    let mut frac: Vec<u8> = Vec::new();
    let mut j: usize = 0;
    proof {
        vstd::arithmetic::div_mod::lemma_fundamental_div_mod(x as int, d as int);
        assert(pow_nat(10, 0) == 1);
        assert(digits_value(frac@) == 0);
    }
    assert(x == ip * d + rem);
    while j < p
        invariant
            0 < d <= 0x4_0000_0000_0000,
            ip == x / d,
            rem < d,
            j <= p,
            frac@.len() == j,
            all_digits(frac@),
            x * pow_nat(10, j as nat) == (ip * pow_nat(10, j as nat) + digits_value(frac@)) * d + rem,
        decreases p - j,
    {
        let t: u128 = rem * 10;
        let digit: u128 = t / d;
        let nr: u128 = t % d;
        assert(digit < 10) by (nonlinear_arith)
            requires
                t == rem * 10,
                rem < d,
                digit == t / d,
                d > 0,
        ;
        let ghost a = ip * pow_nat(10, j as nat) + digits_value(frac@);
        let ghost old_frac = frac@;
        frac.push(digit as u8);
        proof {
            lemma_digits_value_push(old_frac, digit as u8);
            let pj = pow_nat(10, j as nat);
            assert(t == digit * d + nr) by {
                vstd::arithmetic::div_mod::lemma_fundamental_div_mod(t as int, d as int);
            }
            assert(x * (10 * pj) == (ip * (10 * pj) + (digits_value(old_frac) * 10 + digit)) * d + nr)
                by (nonlinear_arith)
                requires
                    x * pj == (ip * pj + digits_value(old_frac)) * d + rem,
                    t == rem * 10,
                    t == digit * d + nr,
            ;
            assert forall|i: int| 0 <= i < frac@.len() implies #[trigger] frac@[i] < 10 by {
                if i < j {
                    assert(frac@[i] == old_frac[i]);
                }
            }
        }
        rem = nr;
        j = j + 1;
    }
    let ghost q = ip * pow_nat(10, p as nat) + digits_value(frac@);
    proof {
        lemma_digits_value_bound(frac@);
        lemma_pow_pos(10, p as nat);
        vstd::arithmetic::div_mod::lemma_fundamental_div_mod_converse(
            (x * pow_nat(10, p as nat)) as int,
            d as int,
            q as int,
            rem as int,
        );
    }
    let odd = if p > 0 {
        frac[p - 1] % 2 == 1
    } else {
        ip % 2 == 1
    };
    assert(odd == (q % 2 == 1)) by {
        if p > 0 {
            let t = frac@.drop_last();
            lemma_digits_value_push(t, frac@.last());
            assert(frac@ =~= t.push(frac@.last()));
            let pp = pow_nat(10, (p - 1) as nat);
            assert(pow_nat(10, p as nat) == 10 * pp);
            let l = frac@.last() as nat;
            let m = ip * pp + digits_value(t);
            assert(q == 10 * m + l) by (nonlinear_arith)
                requires
                    q == ip * (10 * pp) + (digits_value(t) * 10 + l),
                    m == ip * pp + digits_value(t),
            ;
            assert((10 * m + l) % 2 == l % 2) by (nonlinear_arith);
        }
    }
    let ghost ip0 = ip;
    assert(ip0 < 0x100_0000_0000_0000) by (nonlinear_arith)
        requires
            ip0 == x / d,
            x < 0x2_0000_0000_0000_0000,
            d >= 1024,
    ;
    if 2 * rem > d || (2 * rem == d && odd) {
        increment_fixed(&mut ip, &mut frac);
    }
    let ghost n = round_half_even((x * pow_nat(10, p as nat)) as nat, d as nat);
    assert(ip * pow_nat(10, p as nat) + digits_value(frac@) == n);
    proof {
        lemma_digits_value_bound(frac@);
        if p > 0 {
            vstd::arithmetic::div_mod::lemma_fundamental_div_mod_converse(
                n as int,
                pow_nat(10, p as nat) as int,
                ip as int,
                digits_value(frac@) as int,
            );
            lemma_zero_padded_digits(frac@);
        } else {
            assert(digits_value(frac@) == 0);
        }
    }
    let mut s = String::new();
    assert(ip <= u64::MAX);
    push_decimal(&mut s, ip as u64);
    if p > 0 {
        push_char(&mut s, '.');
        let mut i: usize = 0;
        let ghost base = s@;
        while i < p
            invariant
                i <= p,
                frac@.len() == p,
                all_digits(frac@),
                s@ == base + frac@.subrange(0, i as int).map_values(|d: u8| digit_char(d as int)),
            decreases p - i,
        {
            let dg = frac[i];
            assert(dg < 10);
            let c: char = (48u8 + dg) as char;
            assert(c == digit_char(dg as int));
            push_char(&mut s, c);
            assert(frac@.subrange(0, i + 1).map_values(|d: u8| digit_char(d as int)) =~= frac@.subrange(
                0,
                i as int,
            ).map_values(|d: u8| digit_char(d as int)).push(c));
            i = i + 1;
        }
        assert(frac@.subrange(0, p as int) =~= frac@);
    }
    s
}

proof fn lemma_pow2_53()
    ensures
        pow_nat(2, 53) == 0x20_0000_0000_0000,
{
    reveal_with_fuel(pow_nat, 54);
}

/// The double nearest to `n`, as the integer it holds.
fn f64_round(n: u64) -> (r: u128)
    ensures
        r == f64_value(n as nat),
        r < 0x2_0000_0000_0000_0000,
        n >= 1024 ==> r >= 1024,
{
    let mut t: u64 = n;
    let ghost mut s: nat = 0;
    let mut pw: u128 = 1;
    assert(n / 1 == n);
    while t >= 0x20_0000_0000_0000
        invariant
            pw == pow_nat(2, s),
            0 < pw < 0x1000,
            t == (n as int) / (pw as int),
            t >= 0x10_0000_0000_0000 || pw == 1,
            f64_shift(n as nat) == s + f64_shift(t as nat),
        decreases t,
    {
        proof {
            vstd::arithmetic::div_mod::lemma_div_denominator(n as int, pw as int, 2);
            assert(pw * t <= n) by (nonlinear_arith)
                requires
                    t == (n as int) / (pw as int),
                    pw > 0,
            ;
            assert(pw < 0x800) by (nonlinear_arith)
                requires
                    pw * t <= n,
                    t >= 0x20_0000_0000_0000,
                    n < 0x1_0000_0000_0000_0000,
            ;
        }
        t = t / 2;
        proof {
            s = s + 1;
        }
        pw = pw * 2;
    }
    let q: u128 = (n as u128) / pw;
    let rem: u128 = (n as u128) % pw;
    let rq: u128 = if 2 * rem > pw || (2 * rem == pw && q % 2 == 1) {
        q + 1
    } else {
        q
    };
    assert(rq * pw <= n + pw) by (nonlinear_arith)
        requires
            q == (n as int) / (pw as int),
            pw > 0,
            rq <= q + 1,
    ;
    assert(n >= 1024 ==> rq * pw >= 1024) by (nonlinear_arith)
        requires
            q == t,
            t >= 0x10_0000_0000_0000 || pw == 1,
            pw == 1 ==> q == n,
            pw > 0,
            rq >= q,
    ;
    rq * pw
}

/// The unit a value of `v` is shown in, and the divisor of that unit.
fn pick_unit(v: u128) -> (r: (usize, u128))
    ensures
        r.0 == unit_index(v as nat, 0),
        r.1 == pow_nat(1024, r.0 as nat),
        r.0 <= 5,
        r.1 <= 0x4_0000_0000_0000,
        v >= 1024 ==> r.0 >= 1 && r.1 >= 1024,
{
    let mut k: usize = 0;
    let mut d: u128 = 1;
    while k < 5 && v >= d * 1024
        invariant
            k <= 5,
            d == pow_nat(1024, k as nat),
            (k == 0 && d == 1) || (k == 1 && d == 0x400) || (k == 2 && d == 0x10_0000) || (k == 3 && d
                == 0x4000_0000) || (k == 4 && d == 0x100_0000_0000) || (k == 5 && d
                == 0x4_0000_0000_0000),
            unit_index(v as nat, k as nat) == unit_index(v as nat, 0),
        decreases 5 - k,
    {
        assert(pow_nat(1024, (k + 1) as nat) == 1024 * pow_nat(1024, k as nat));
        d = d * 1024;
        k = k + 1;
    }
    (k, d)
}

/// Appends the suffix of binary unit `k`.
fn push_unit_suffix(s: &mut String, k: usize)
    requires
        k <= 5,
    ensures
        final(s)@ == old(s)@ + unit_suffix(k as nat),
{
    if k == 0 {
        push_char(s, 'B');
    } else {
        let c = if k == 1 {
            'K'
        } else if k == 2 {
            'M'
        } else if k == 3 {
            'G'
        } else if k == 4 {
            'T'
        } else {
            'P'
        };
        push_char(s, c);
        push_char(s, 'B');
    }
    assert(s@ =~= old(s)@ + unit_suffix(k as nat));
}

/// `bytes` as a human-readable size with `precision` decimals (one when
/// `None`), e.g. `"1.5 KB"`; counts below 1024 are written as `"500 B"`.
pub fn format_size(bytes: u64, precision: Option<usize>) -> (r: String)
    ensures
        r@ == format_size_spec(
            bytes as nat,
            match precision {
                Some(p) => p as nat,
                None => 1,
            },
        ),
{
    let prec: usize = match precision {
        Some(p) => p,
        None => 1,
    };
    let mut s = String::new();
    if bytes < 1024 {
        push_decimal(&mut s, bytes);
        push_char(&mut s, ' ');
        push_char(&mut s, 'B');
        assert(s@ =~= decimal_chars(bytes as nat) + seq![' ', 'B']);
        return s;
    }
    let v = f64_round(bytes);
    let (k, d) = pick_unit(v);
    let mut s = format_fixed(v, d, prec);
    push_char(&mut s, ' ');
    push_unit_suffix(&mut s, k);
    s
}

/// A transfer speed of `bytes_per_sec` as a human-readable string with one
/// decimal, e.g. `"2.0 KB/s"`; speeds below 1024 are written as `"500 B/s"`.
pub fn format_speed(bytes_per_sec: u64) -> (r: String)
    ensures
        r@ == format_speed_spec(bytes_per_sec as nat),
{
    let mut s = String::new();
    if bytes_per_sec < 1024 {
        push_decimal(&mut s, bytes_per_sec);
        push_char(&mut s, ' ');
        push_char(&mut s, 'B');
        push_char(&mut s, '/');
        push_char(&mut s, 's');
        assert(s@ =~= decimal_chars(bytes_per_sec as nat) + seq![' ', 'B', '/', 's']);
        return s;
    }
    let v = f64_round(bytes_per_sec);
    let (k, d) = pick_unit(v);
    let mut s = format_fixed(v, d, 1);
    push_char(&mut s, ' ');
    push_unit_suffix(&mut s, k);
    push_char(&mut s, '/');
    push_char(&mut s, 's');
    s
}

} // verus!
