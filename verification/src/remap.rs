//! The scroll transform: maps a source x-coordinate into destination space
//! by a signed horizontal offset, with configurable wraparound.

use vstd::prelude::*;

verus! {

use vstd::arithmetic::div_mod::{lemma_add_mod_noop, lemma_mod_add_multiples_vanish};

/// What the transform computes. With `wrap` the result is `x + offset`
/// taken modulo `width` (`%` on `int` is the Euclidean remainder, so the
/// result is non-negative); without it, the plain translation `x + offset`.
pub open spec fn remap_spec(x: int, offset: int, width: int, wrap: bool) -> int {
    if wrap {
        (x + offset) % width
    } else {
        x + offset
    }
}

/// Euclidean remainder of `a` by `m` on machine integers: the unique
/// `r` with `0 <= r < m` and `r == a % m` in the mathematical sense.
fn euclid_rem(a: i64, m: i64) -> (r: i64)
    requires
        1 <= m,
    ensures
        r == a as int % m as int,
        0 <= r < m,
{
    if a >= 0 {
        a % m
    } else {
        // For a < 0, write a as q * m + r with 0 <= r < m by reducing the
        // non-negative value -(a + 1) instead.
        let b = -(a + 1);
        let t = b % m;
        proof {
            vstd::arithmetic::div_mod::lemma_mod_division_less_than_divisor(b as int, m as int);
            vstd::arithmetic::div_mod::lemma_fundamental_div_mod(b as int, m as int);
            assert((-(b as int / m as int) - 1) * m as int == -(m as int * (b as int / m as int))
                - m as int) by (nonlinear_arith);
            vstd::arithmetic::div_mod::lemma_fundamental_div_mod_converse_mod(
                a as int,
                m as int,
                -(b as int / m as int) - 1,
                m - 1 - t,
            );
        }
        m - 1 - t
    }
}

/// Remaps `x` by `offset` into `[0, width)` when `wrap` is set, and to the
/// exact unclamped translation otherwise. Pixels that land outside the
/// panel in non-wrap mode are dropped later, by the frame surface's bounds
/// check, not here.
pub fn remap(x: i64, offset: i64, width: u32, wrap: bool) -> (r: i64)
    requires
        wrap ==> 1 <= width,
        !wrap ==> i64::MIN <= x + offset <= i64::MAX,
    ensures
        r == remap_spec(x as int, offset as int, width as int, wrap),
        wrap ==> 0 <= r < width,
{
    if wrap {
        let m = width as i64;
        let rx = euclid_rem(x, m);
        let ro = euclid_rem(offset, m);
        let s = rx + ro;
        proof {
            lemma_add_mod_noop(x as int, offset as int, m as int);
        }
        if s >= m {
            proof {
                lemma_mod_add_multiples_vanish((s - m) as int, m as int);
                vstd::arithmetic::div_mod::lemma_small_mod((s - m) as nat, m as nat);
            }
            s - m
        } else {
            proof {
                vstd::arithmetic::div_mod::lemma_small_mod(s as nat, m as nat);
            }
            s
        }
    } else {
        x + offset
    }
}

/// Law: with wraparound the remapped coordinate always lands in
/// `[0, width)`, for every `x` and `offset` and positive `width`.
pub proof fn lemma_remap_in_range(x: int, offset: int, width: int)
    requires
        1 <= width,
    ensures
        0 <= remap_spec(x, offset, width, true) < width,
{
    vstd::arithmetic::div_mod::lemma_mod_division_less_than_divisor(x + offset, width);
}

/// Law: the wrapping transform is periodic in `offset` with period `width`.
pub proof fn lemma_remap_periodic(x: int, offset: int, width: int)
    requires
        1 <= width,
    ensures
        remap_spec(x, offset, width, true) == remap_spec(x, offset + width, width, true),
{
    lemma_mod_add_multiples_vanish(x + offset, width);
}

/// Law: without wraparound the transform is the identity translation
/// `x + offset`, with no clamping.
pub proof fn lemma_remap_no_wrap(x: int, offset: int, width: int)
    ensures
        remap_spec(x, offset, width, false) == x + offset,
{
}

} // verus!
