//! Little-endian radix decomposition of integers into block digits.
//!
//! A logical integer is carried by `n` elementary blocks, each holding one
//! base-`m` digit, least significant first.  This module proves that
//! splitting and recombining are inverse to each other.

use vstd::arithmetic::div_mod::{
    lemma_div_pos_is_pos, lemma_fundamental_div_mod_converse, lemma_mod_bound,
    lemma_mod_breakdown,
};
use vstd::arithmetic::power::{lemma_pow_increases, lemma_pow_positive, pow};
use vstd::prelude::*;

verus! {

/// The `n` little-endian base-`m` digits of `v`.
pub open spec fn spec_digits(v: int, m: int, n: nat) -> Seq<u64>
    recommends
        m >= 2,
        v >= 0,
    decreases n,
{
    if n == 0 {
        Seq::empty()
    } else {
        seq![(v % m) as u64].add(spec_digits(v / m, m, (n - 1) as nat))
    }
}

/// The integer a little-endian base-`m` digit sequence stands for.
pub open spec fn spec_radix_value(ds: Seq<u64>, m: int) -> int
    decreases ds.len(),
{
    if ds.len() == 0 {
        0
    } else {
        ds[0] + m * spec_radix_value(ds.drop_first(), m)
    }
}

/// Every digit lies below the base.
pub open spec fn digits_below(ds: Seq<u64>, m: int) -> bool {
    forall|i: int| 0 <= i < ds.len() ==> (#[trigger] ds[i]) < m
}

pub proof fn lemma_digits_len(v: int, m: int, n: nat)
    ensures
        spec_digits(v, m, n).len() == n,
    decreases n,
{
    if n > 0 {
        lemma_digits_len(v / m, m, (n - 1) as nat);
    }
}

pub proof fn lemma_digits_below(v: int, m: int, n: nat)
    requires
        m >= 2,
        m <= u64::MAX,
        v >= 0,
    ensures
        digits_below(spec_digits(v, m, n), m),
    decreases n,
{
    if n > 0 {
        lemma_mod_bound(v, m);
        lemma_div_pos_is_pos(v, m);
        lemma_digits_below(v / m, m, (n - 1) as nat);
        lemma_digits_len(v / m, m, (n - 1) as nat);
        let ds = spec_digits(v, m, n);
        let rest = spec_digits(v / m, m, (n - 1) as nat);
        assert forall|i: int| 0 <= i < ds.len() implies (#[trigger] ds[i]) < m by {
            if i > 0 {
                assert(ds[i] == rest[i - 1]);
            }
        }
    }
}

/// Recombining the `n` digits of `v` yields `v` modulo `m^n`.
pub proof fn lemma_digits_value(v: int, m: int, n: nat)
    requires
        m >= 2,
        m <= u64::MAX,
        v >= 0,
    ensures
        spec_radix_value(spec_digits(v, m, n), m) == v % pow(m, n),
    decreases n,
{
    reveal(pow);
    lemma_pow_positive(m, n);
    if n == 0 {
        assert(pow(m, 0) == 1) by {
            vstd::arithmetic::power::lemma_pow0(m);
        }
        assert(v % 1 == 0) by {
            lemma_fundamental_div_mod_converse(v, 1, v, 0);
        }
    } else {
        let p = pow(m, (n - 1) as nat);
        lemma_pow_positive(m, (n - 1) as nat);
        lemma_div_pos_is_pos(v, m);
        lemma_mod_bound(v, m);
        lemma_digits_value(v / m, m, (n - 1) as nat);
        let ds = spec_digits(v, m, n);
        let rest = spec_digits(v / m, m, (n - 1) as nat);
        assert(ds.drop_first() =~= rest);
        lemma_mod_breakdown(v, m, p);
        assert(pow(m, n) == m * p);
        assert(ds[0] == (v % m) as u64);
        assert(ds[0] as int == v % m);
        assert(spec_radix_value(ds, m) == ds[0] + m * spec_radix_value(rest, m));
        assert(spec_radix_value(ds, m) == v % m + m * ((v / m) % p));
    }
}

/// A digit sequence below its base stands for a value below `m^len`.
pub proof fn lemma_radix_value_bound(ds: Seq<u64>, m: int)
    requires
        m >= 2,
        digits_below(ds, m),
    ensures
        0 <= spec_radix_value(ds, m) < pow(m, ds.len()),
    decreases ds.len(),
{
    lemma_pow_positive(m, ds.len());
    if ds.len() == 0 {
        assert(pow(m, 0) == 1) by {
            vstd::arithmetic::power::lemma_pow0(m);
        }
    } else {
        let rest = ds.drop_first();
        assert(digits_below(rest, m)) by {
            assert(forall|i: int|
                0 <= i < rest.len() ==> (#[trigger] rest[i]) == ds[i + 1] && ds[i + 1] < m);
        }
        lemma_radix_value_bound(rest, m);
        let p = pow(m, rest.len());
        assert(pow(m, ds.len()) == m * p) by {
            reveal(pow);
        }
        assert(ds[0] < m);
        assert(ds[0] + m * spec_radix_value(rest, m) < m * p) by (nonlinear_arith)
            requires
                ds[0] < m,
                m >= 2,
                0 <= spec_radix_value(rest, m) < p,
        ;
        assert(0 <= ds[0] + m * spec_radix_value(rest, m)) by (nonlinear_arith)
            requires
                0 <= ds[0],
                m >= 2,
                0 <= spec_radix_value(rest, m),
        ;
    }
}

/// Splits `v` into its `n` little-endian base-`m` digits.
pub fn decompose_radix(v: u64, m: u64, n: usize) -> (out: Vec<u64>)
    requires
        m >= 2,
    ensures
        out@ == spec_digits(v as int, m as int, n as nat),
        out@.len() == n,
{
    proof {
        lemma_digits_len(v as int, m as int, n as nat);
        assert(Seq::<u64>::empty() + spec_digits(v as int, m as int, n as nat) =~= spec_digits(
            v as int,
            m as int,
            n as nat,
        ));
    }
    let mut out: Vec<u64> = Vec::new();
    let mut cur: u64 = v;
    let mut i: usize = 0;
    while i < n
        invariant
            m >= 2,
            i <= n,
            out@.len() == i,
            spec_digits(v as int, m as int, n as nat) == out@ + spec_digits(
                cur as int,
                m as int,
                (n - i) as nat,
            ),
        decreases n - i,
    {
        let ghost pre = out@;
        let ghost prev_cur = cur as int;
        out.push(cur % m);
        cur = cur / m;
        i = i + 1;
        proof {
            let rest = spec_digits(prev_cur / (m as int), m as int, (n - i) as nat);
            assert(spec_digits(prev_cur, m as int, (n - (i - 1)) as nat) == seq![
                (prev_cur % (m as int)) as u64,
            ].add(rest));
            assert(out@ =~= pre + seq![(prev_cur % (m as int)) as u64]);
            assert(out@ + rest =~= pre + seq![(prev_cur % (m as int)) as u64].add(rest));
        }
    }
    out
}

/// Recombines little-endian base-`m` digits into the integer they stand for.
pub fn recompose_radix(ds: &Vec<u64>, m: u64) -> (v: u64)
    requires
        m >= 2,
        digits_below(ds@, m as int),
        pow(m as int, ds@.len() as nat) <= u64::MAX,
    ensures
        v as int == spec_radix_value(ds@, m as int),
{
    let mut acc: u64 = 0;
    let mut k: usize = ds.len();
    proof {
        assert(ds@.skip(ds@.len() as int) =~= Seq::<u64>::empty());
    }
    while k > 0
        invariant
            m >= 2,
            k <= ds@.len(),
            digits_below(ds@, m as int),
            pow(m as int, ds@.len() as nat) <= u64::MAX,
            acc as int == spec_radix_value(ds@.skip(k as int), m as int),
        decreases k,
    {
        k = k - 1;
        proof {
            let tail = ds@.skip(k as int);
            assert(tail.drop_first() =~= ds@.skip(k as int + 1));
            assert(tail[0] == ds@[k as int]);
            assert(digits_below(tail, m as int)) by {
                assert(forall|i: int|
                    0 <= i < tail.len() ==> (#[trigger] tail[i]) == ds@[i + k] && ds@[i + k]
                        < m as int);
            }
            lemma_radix_value_bound(tail, m as int);
            lemma_pow_increases(m as nat, tail.len(), ds@.len() as nat);
            assert(pow(m as int, tail.len()) == pow(m as nat as int, tail.len()));
            // acc * m + ds[k] == value(tail) < pow(m, tail.len()) <= u64::MAX
            assert(spec_radix_value(tail, m as int) == ds@[k as int] + m * spec_radix_value(
                tail.drop_first(),
                m as int,
            ));
            assert(acc as int * m as int == m as int * spec_radix_value(
                tail.drop_first(),
                m as int,
            )) by (nonlinear_arith)
                requires
                    acc as int == spec_radix_value(tail.drop_first(), m as int),
            ;
            assert(acc as int * m as int + ds@[k as int] == spec_radix_value(tail, m as int));
        }
        acc = acc * m + ds[k];
    }
    proof {
        assert(ds@.skip(0) =~= ds@);
    }
    acc
}

/// Law: recombining the digits of a value below the capacity `m^n` returns
/// the value exactly.
pub proof fn lemma_digits_value_exact(v: int, m: int, n: nat)
    requires
        2 <= m <= u64::MAX,
        0 <= v < pow(m, n),
    ensures
        spec_radix_value(spec_digits(v, m, n), m) == v,
{
    lemma_digits_value(v, m, n);
    lemma_pow_positive(m, n);
    vstd::arithmetic::div_mod::lemma_small_mod(v as nat, pow(m, n) as nat);
}

/// Centered (signed) reading of a residue `w` of the capacity `total`.
pub open spec fn spec_signed_of(w: int, total: int) -> int {
    if 2 * w >= total {
        w - total
    } else {
        w
    }
}

/// Law: wrapping a signed value into `[0, total)` and reading the residue
/// back centered returns the value, whenever the value fits the centered
/// range.
pub proof fn lemma_signed_wrap_round_trip(v: int, total: int)
    requires
        total >= 2,
        -total <= 2 * v < total,
    ensures
        0 <= v % total < total,
        spec_signed_of(v % total, total) == v,
{
    if v >= 0 {
        vstd::arithmetic::div_mod::lemma_small_mod(v as nat, total as nat);
    } else {
        assert(0 <= v + total < total);
        lemma_fundamental_div_mod_converse(v, total, -1, v + total);
        assert(v % total == v + total);
    }
}

/// Wraps a signed value into the residue range `[0, total)`.
pub fn wrap_signed(v: i64, total: u64) -> (w: u64)
    requires
        total >= 2,
    ensures
        w as int == (v as int) % (total as int),
        w < total,
{
    proof {
        lemma_mod_bound(v as int, total as int);
    }
    if v >= 0 {
        (v as u64) % total
    } else {
        let a: u64 = (-(v as i128)) as u64;
        proof {
            assert(-(v as i128) >= 0);
            assert(-(v as i128) <= u64::MAX as i128);
            assert(a as int == -(v as int));
        }
        let r = a % total;
        proof {
            let ai = a as int;
            let t = total as int;
            let q = ai / t;
            vstd::arithmetic::div_mod::lemma_fundamental_div_mod(ai, t);
            assert(ai == t * q + r);
            if r == 0 {
                assert((-q) * t == -(t * q)) by (nonlinear_arith);
                assert(v as int == (-q) * t + 0);
                lemma_fundamental_div_mod_converse(v as int, t, -q, 0);
            } else {
                assert((-q - 1) * t == -(t * q) - t) by (nonlinear_arith);
                assert(v as int == (-q - 1) * t + (t - r));
                lemma_fundamental_div_mod_converse(v as int, t, -q - 1, t - r);
            }
        }
        if r == 0 {
            0
        } else {
            total - r
        }
    }
}

/// Computes `m^n`, reporting overflow instead of wrapping.
pub fn checked_pow_u64(m: u64, n: usize) -> (r: Option<u64>)
    requires
        m >= 2,
    ensures
        match r {
            Some(p) => p as int == pow(m as int, n as nat),
            None => pow(m as int, n as nat) > u64::MAX,
        },
{
    let mut acc: u64 = 1;
    let mut i: usize = 0;
    proof {
        vstd::arithmetic::power::lemma_pow0(m as int);
    }
    while i < n
        invariant
            m >= 2,
            i <= n,
            acc as int == pow(m as int, i as nat),
        decreases n - i,
    {
        proof {
            lemma_pow_positive(m as int, i as nat);
            assert(pow(m as int, (i + 1) as nat) == m * pow(m as int, i as nat)) by {
                vstd::arithmetic::power::lemma_pow1(m as int);
                vstd::arithmetic::power::lemma_pow_adds(m as int, 1, i as nat);
            }
        }
        let next = acc.checked_mul(m);
        match next {
            Some(p) => {
                acc = p;
            },
            None => {
                proof {
                    lemma_pow_increases(m as nat, (i + 1) as nat, n as nat);
                }
                return None;
            },
        }
        i = i + 1;
    }
    Some(acc)
}

} // verus!
