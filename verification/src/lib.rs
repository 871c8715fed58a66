//! Width-tagged immediate values.
//!
//! An immediate is an unsigned integer stored in a 32-bit word of which only
//! the low `N` bits are significant, with the width `N` fixed at the type
//! level. The library offers the closed set of width transformations on such
//! values — truncating to the low or high bits, zero-extending, and
//! concatenating two fields into a wider one — and proves the masking and
//! shifting arithmetic of every transformation.
//!
//! Each operation carries its legality condition as a precondition over the
//! const width parameters, so an illegal width transition is rejected before
//! the program runs, at the call site that asks for it; no run-time check
//! exists. The legal table is: a downcast from `F` to `T` bits for every
//! `1 <= T < F <= 32`, an upcast from `F` to `T` for every `1 <= F < T <= 32`
//! (the inverse of the downcast `T` to `F`), and a concatenation of an
//! `F`-bit and an `R`-bit field into an `F + R`-bit one whenever
//! `F + R <= 32`.

use vstd::arithmetic::div_mod::lemma_fundamental_div_mod_converse;
use vstd::arithmetic::div_mod::lemma_multiply_divide_lt;
use vstd::arithmetic::div_mod::lemma_small_mod;
use vstd::arithmetic::power2::lemma2_to64;
use vstd::arithmetic::power2::lemma_pow2_adds;
use vstd::arithmetic::power2::lemma_pow2_pos;
use vstd::arithmetic::power2::lemma_pow2_strictly_increases;
use vstd::arithmetic::power2::pow2;
use vstd::bits::lemma_u32_low_bits_mask_is_mod;
use vstd::bits::lemma_u32_pow2_no_overflow;
use vstd::bits::lemma_u32_shl_is_mul;
use vstd::bits::lemma_u32_shr_is_div;
use vstd::bits::low_bits_mask;
use vstd::prelude::*;

verus! {

/// A raw value fits a width of `n` bits when it lies below `2^n`.
pub open spec fn fits(v: nat, n: nat) -> bool {
    v < pow2(n)
}

/// The value of the `t` low bits of `v`.
pub open spec fn low_bits(v: nat, t: nat) -> nat {
    v % pow2(t)
}

/// The value of the `t` high bits of an `f`-bit field holding `v`.
pub open spec fn high_bits(v: nat, f: nat, t: nat) -> nat
    recommends
        t <= f,
{
    v / pow2((f - t) as nat)
}

/// The value of an `f`-bit high field `hi` concatenated with an `r`-bit low
/// field `lo`: `hi` shifted past the `r` bits of `lo`.
pub open spec fn concat_bits(hi: nat, lo: nat, r: nat) -> nat {
    hi * pow2(r) + lo
}

/// An immediate value: a 32-bit word of which only the low `N` bits are
/// significant. The width `N` is part of the type, so immediates of
/// different widths are distinct types and never interchange implicitly;
/// the only paths between widths are the cast operations of this crate.
#[derive(Clone, Copy, Debug, PartialEq, Eq)]
pub struct Immediate32<const N: usize>(u32);

impl<const N: usize> View for Immediate32<N> {
    type V = u32;

    closed spec fn view(&self) -> u32 {
        self.0
    }
}

impl<const N: usize> Immediate32<N> {
    /// The intended invariant of a width-`N` immediate: bits above the low
    /// `N` are clear. Every constructor of this crate establishes it, and
    /// the narrowing operations restore it on their output; a caller that
    /// needs it of an arbitrary value must establish it itself.
    pub open spec fn wf(self) -> bool {
        fits(self@ as nat, N as nat)
    }

    /// The all-zero immediate, available at every supported width.
    pub fn zero() -> (r: Self)
        requires
            1 <= N <= 32,
        ensures
            r@ == 0,
            r.wf(),
    {
        proof {
            lemma_pow2_pos(N as nat);
        }
        Immediate32(0)
    }

    /// Reads the raw storage back unchanged.
    pub fn to_u32(self) -> (r: u32)
        ensures
            r == self@,
    {
        self.0
    }

    /// Compares the raw storage against a plain integer; the width tag
    /// plays no part in the comparison.
    pub fn eq_u32(self, other: u32) -> (r: bool)
        ensures
            r == (self@ == other),
    {
        self.0 == other
    }
}

impl Immediate32<32> {
    /// The single unconstrained constructor. At width 32 every bit of the
    /// word is significant, so any pattern is accepted unmasked; narrower
    /// immediates can only be derived from existing ones.
    pub fn new(value: u32) -> (r: Self)
        ensures
            r@ == value,
            r.wf(),
    {
        proof {
            lemma2_to64();
        }
        Immediate32(value)
    }
}

impl Immediate32<1> {
    /// Projects a one-bit immediate onto a boolean: `true` for raw 1,
    /// `false` for raw 0. Defined only for well-formed values; a one-bit
    /// immediate holding anything else is outside this function's contract.
    pub fn to_bool(self) -> (r: bool)
        requires
            self.wf(),
        ensures
            r == (self@ == 1),
    {
        self.0 == 1
    }

    /// Compares a one-bit immediate against a boolean: equal to `true`
    /// exactly when raw is 1 and to `false` exactly when raw is 0. A
    /// malformed value (raw outside {0, 1}) compares equal to neither
    /// boolean; the comparison is total and never fails.
    pub fn eq_bool(self, other: bool) -> (r: bool)
        ensures
            r == ((self@ == 1 && other) || (self@ == 0 && !other)),
    {
        (self.0 == 1 && other) || (self.0 == 0 && !other)
    }
}

impl<const N: usize> Default for Immediate32<N> {
    /// The default immediate is the all-zero pattern, at any width.
    fn default() -> (r: Self)
        ensures
            r@ == 0,
            r.wf(),
    {
        proof {
            lemma_pow2_pos(N as nat);
        }
        Immediate32(0)
    }
}

/// Downcasts from `F` bits to the narrower width `T`, keeping either end of
/// the field. Legal for every `1 <= T < F <= 32`.
pub trait Immediate32DownCast<const F: usize, const T: usize>: View<V = u32> + Copy + Sized {
    /// Keeps the `T` least significant bits: the result is the input taken
    /// modulo `2^T`. The masking restores the width invariant on the output
    /// whatever the input held.
    fn take_low(self) -> (r: Immediate32<T>)
        requires
            1 <= T < F <= 32,
        ensures
            r@ as nat == low_bits(self@ as nat, T as nat),
            fits(r@ as nat, T as nat),
    ;

    /// Keeps the `T` most significant bits of the `F`-bit field: the result
    /// is the input divided by `2^(F - T)`, masked to `T` bits. The masking
    /// restores the width invariant on the output whatever the input held;
    /// on a well-formed input it changes nothing, and the result is exactly
    /// the quotient.
    fn take_high(self) -> (r: Immediate32<T>)
        requires
            1 <= T < F <= 32,
        ensures
            r@ as nat == low_bits(high_bits(self@ as nat, F as nat, T as nat), T as nat),
            fits(r@ as nat, T as nat),
            fits(self@ as nat, F as nat) ==> r@ as nat == high_bits(
                self@ as nat,
                F as nat,
                T as nat,
            ),
    ;
}

/// Upcasts from `F` bits to the wider width `T`. Legal exactly where the
/// reverse downcast from `T` to `F` is, so for every `1 <= F < T <= 32`.
pub trait Immediate32UpCast<const F: usize, const T: usize>: View<V = u32> + Copy + Sized {
    /// Reinterprets the value at the wider width; the raw value is kept
    /// unchanged and the new high bits are zero.
    fn zero_extend(self) -> (r: Immediate32<T>)
        requires
            1 <= F < T <= 32,
        ensures
            r@ == self@,
            fits(self@ as nat, F as nat) ==> fits(r@ as nat, T as nat),
    ;
}

/// Concatenates this immediate, as the high field, with an `R`-bit low
/// field, into an `O`-bit immediate. Legal for every pair of widths whose
/// sum `O` stays within 32 bits.
pub trait Immediate32Concatable<const R: usize, const O: usize>: View<V = u32> + Copy + Sized {
    /// The width of the high field, i.e. of `Self`.
    spec fn width() -> usize;

    /// Places `self` in the high `Self::width()` bits of the result and
    /// `rhs` in the low `R` bits. Both operands must satisfy their width
    /// invariant: a high field too wide would overflow the word, and a low
    /// field too wide would corrupt the high field.
    fn concat(self, rhs: Immediate32<R>) -> (r: Immediate32<O>)
        requires
            1 <= Self::width(),
            1 <= R,
            O == Self::width() + R,
            O <= 32,
            fits(self@ as nat, Self::width() as nat),
            fits(rhs@ as nat, R as nat),
        ensures
            r@ as nat == concat_bits(self@ as nat, rhs@ as nat, R as nat),
            fits(r@ as nat, O as nat),
    ;
}

/// Clears every bit of `value` above the low `t`, leaving the value taken
/// modulo `2^t`.
fn mask_to(value: u32, t: usize) -> (r: u32)
    requires
        1 <= t < 32,
    ensures
        r as nat == low_bits(value as nat, t as nat),
        fits(r as nat, t as nat),
{
    let shift: u32 = t as u32;
    let masked: u32 = value & !(u32::MAX << shift);
    proof {
        lemma_u32_pow2_no_overflow(t as nat);
        lemma_u32_shl_is_mul(1u32, shift);
        assert(!(u32::MAX << shift) == (1u32 << shift) - 1) by (bit_vector)
            requires
                0 < shift < 32u32,
        ;
        assert(!(u32::MAX << shift) == low_bits_mask(t as nat) as u32);
        lemma_u32_low_bits_mask_is_mod(value, t as nat);
        lemma_pow2_pos(t as nat);
    }
    masked
}

impl<const F: usize, const T: usize> Immediate32DownCast<F, T> for Immediate32<F> {
    fn take_low(self) -> (r: Immediate32<T>) {
        Immediate32(mask_to(self.0, T))
    }

    fn take_high(self) -> (r: Immediate32<T>) {
        let shift: u32 = (F - T) as u32;
        let value: u32 = self.0;
        let shifted: u32 = value >> shift;
        proof {
            lemma_u32_shr_is_div(value, shift);
            lemma_pow2_pos(T as nat);
            if fits(value as nat, F as nat) {
                lemma_pow2_adds((F - T) as nat, T as nat);
                lemma_pow2_pos((F - T) as nat);
                lemma_multiply_divide_lt(
                    value as int,
                    pow2((F - T) as nat) as int,
                    pow2(T as nat) as int,
                );
                lemma_small_mod(shifted as nat, pow2(T as nat));
            }
        }
        Immediate32(mask_to(shifted, T))
    }
}

impl<const F: usize, const T: usize> Immediate32UpCast<F, T> for Immediate32<F> {
    fn zero_extend(self) -> (r: Immediate32<T>) {
        proof {
            if fits(self@ as nat, F as nat) {
                lemma_pow2_strictly_increases(F as nat, T as nat);
            }
        }
        Immediate32(self.0)
    }
}

impl<const F: usize, const R: usize, const O: usize> Immediate32Concatable<R, O> for Immediate32<F> {
    open spec fn width() -> usize {
        F
    }

    fn concat(self, rhs: Immediate32<R>) -> (r: Immediate32<O>) {
        let shift: u32 = R as u32;
        let hi: u32 = self.0;
        let lo: u32 = rhs.0;
        proof {
            lemma_pow2_pos(F as nat);
            lemma_pow2_pos(R as nat);
            lemma_pow2_adds(F as nat, R as nat);
            lemma2_to64();
            if O < 32 {
                lemma_pow2_strictly_increases(O as nat, 32);
            }
            // hi <= 2^F - 1, so hi * 2^R <= 2^O - 2^R and the shifted high
            // field leaves room for the low field below it.
            assert(hi * pow2(R as nat) <= (pow2(F as nat) - 1) * pow2(R as nat) == pow2(F as nat)
                * pow2(R as nat) - pow2(R as nat)) by (nonlinear_arith)
                requires
                    hi < pow2(F as nat),
                    0 < pow2(R as nat),
            ;
            lemma_u32_shl_is_mul(hi, shift);
        }
        Immediate32((hi << shift) + lo)
    }
}

/// Law: splitting a concatenation recovers both fields. For a high field
/// `hi` of `f` bits and a low field `lo` of `r` bits with `f + r <= 32`,
/// taking the high `f` bits of the concatenation gives back `hi`, and
/// taking the low `r` bits gives back `lo`.
pub proof fn lemma_concat_round_trip(f: nat, r: nat, hi: nat, lo: nat)
    requires
        1 <= f,
        1 <= r,
        f + r <= 32,
        fits(hi, f),
        fits(lo, r),
    ensures
        high_bits(concat_bits(hi, lo, r), f + r, f) == hi,
        low_bits(concat_bits(hi, lo, r), r) == lo,
{
    lemma_pow2_pos(r);
    lemma_fundamental_div_mod_converse(
        concat_bits(hi, lo, r) as int,
        pow2(r) as int,
        hi as int,
        lo as int,
    );
}

/// Law: a zero field is neutral in a concatenation. With a zero high field
/// the concatenation carries just the low field, which is the raw value of
/// its zero-extension; with a zero low field it carries the high field
/// shifted left by the low width.
pub proof fn lemma_concat_zero(r: nat, hi: nat, lo: nat)
    ensures
        concat_bits(0, lo, r) == lo,
        concat_bits(hi, 0, r) == hi * pow2(r),
{
}

} // verus!
