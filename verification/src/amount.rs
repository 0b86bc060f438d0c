//! The numeric model of a deposit amount.
//!
//! An amount arrives on the wire as one 32-byte big-endian word, so it can
//! carry up to 256 bits as decoded; verification later demands that it fit
//! an unsigned 128-bit value. [`WideUint`] holds the full decoded width as
//! two 128-bit halves, so that nothing is truncated at decode time and the
//! range check is an explicit, verified step.

use vstd::arithmetic::mul::lemma_mul_inequality;
use vstd::arithmetic::power2::lemma2_to64;
use vstd::arithmetic::power2::lemma_pow2_adds;
use vstd::arithmetic::power2::pow2;
use vstd::prelude::*;

verus! {

/// The value of a byte string read as a big-endian unsigned integer.
pub open spec fn be_val(w: Seq<u8>) -> nat
    decreases w.len(),
{
    if w.len() == 0 {
        0
    } else {
        be_val(w.drop_last()) * 256 + w.last() as nat
    }
}

/// `pow2(128)` written out, so that contracts can relate it to `u128`.
pub proof fn lemma_pow2_128()
    ensures
        pow2(128) == 0x100000000000000000000000000000000,
{
    lemma_pow2_adds(64, 64);
    lemma2_to64();
}

/// A big-endian value is bounded by the width of its byte string.
pub proof fn lemma_be_val_bound(w: Seq<u8>)
    ensures
        be_val(w) < pow2((8 * w.len()) as nat),
    decreases w.len(),
{
    if w.len() == 0 {
        lemma2_to64();
    } else {
        let head = w.drop_last();
        lemma_be_val_bound(head);
        lemma_pow2_adds((8 * head.len()) as nat, 8);
        lemma2_to64();
        lemma_mul_inequality(be_val(head) as int, pow2((8 * head.len()) as nat) - 1, 256);
    }
}

/// Splitting a byte string splits its big-endian value: the left part is
/// shifted up by eight bits for every byte of the right part.
pub proof fn lemma_be_val_concat(a: Seq<u8>, b: Seq<u8>)
    ensures
        be_val(a + b) == be_val(a) * pow2((8 * b.len()) as nat) + be_val(b),
    decreases b.len(),
{
    if b.len() == 0 {
        assert(a + b =~= a);
        lemma2_to64();
        assert(pow2((8 * b.len()) as nat) == 1);
        assert(be_val(a) * pow2((8 * b.len()) as nat) == be_val(a));
    } else {
        let front = b.drop_last();
        lemma_be_val_concat(a, front);
        assert((a + b).drop_last() =~= a + front);
        assert((a + b).last() == b.last());
        lemma_pow2_adds((8 * front.len()) as nat, 8);
        lemma2_to64();
        let p = pow2((8 * front.len()) as nat);
        assert(be_val(a + b) == be_val(a + front) * 256 + b.last());
        assert(be_val(a + front) == be_val(a) * p + be_val(front));
        assert((8 * b.len()) as nat == (8 * front.len()) as nat + 8);
        assert(pow2((8 * b.len()) as nat) == p * 256);
        assert(be_val(b) == be_val(front) * 256 + b.last());
        assert(be_val(a) * (p * 256) == (be_val(a) * p) * 256) by (nonlinear_arith);
        assert((be_val(a) * p + be_val(front)) * 256 == (be_val(a) * p) * 256 + be_val(front)
            * 256) by (nonlinear_arith);
        assert(be_val(a + b) == be_val(a) * (p * 256) + be_val(b));
    }
}

/// An unsigned integer of up to 256 bits, as decoded from one 32-byte wire
/// word: `hi` holds the upper 128 bits and `lo` the lower 128 bits. Its
/// view is the mathematical value. A deposit amount is valid only when it
/// fits 128 bits, that is when `hi` is zero.
#[derive(Clone, Copy, Debug, PartialEq, Eq, Structural)]
pub struct WideUint {
    pub hi: u128,
    pub lo: u128,
}

impl View for WideUint {
    type V = nat;

    open spec fn view(&self) -> nat {
        (self.hi * pow2(128) + self.lo) as nat
    }
}

impl WideUint {
    /// Whether the value fits an unsigned 128-bit integer.
    pub open spec fn spec_fits_u128(&self) -> bool {
        self@ < pow2(128)
    }

    /// The value fits 128 bits exactly when the upper half is zero.
    pub proof fn lemma_fits_iff_hi_zero(&self)
        ensures
            self.spec_fits_u128() <==> self.hi == 0,
            self.hi == 0 ==> self@ == self.lo,
    {
        lemma_pow2_128();
        if self.hi != 0 {
            lemma_mul_inequality(1, self.hi as int, pow2(128) as int);
        }
    }

    /// Returns the value as a `u128` when it fits, and `None` when the
    /// decoded word exceeds the 128-bit range.
    pub fn as_u128(&self) -> (r: Option<u128>)
        ensures
            r matches Some(v) ==> self.spec_fits_u128() && v == self@,
            r is None ==> !self.spec_fits_u128(),
    {
        proof {
            self.lemma_fits_iff_hi_zero();
        }
        if self.hi == 0 {
            Some(self.lo)
        } else {
            None
        }
    }
}

/// Reads sixteen bytes of `w`, starting at `start`, as one big-endian
/// `u128`.
fn be_u128(w: &Vec<u8>, start: usize) -> (r: u128)
    requires
        start + 16 <= w@.len(),
    ensures
        r == be_val(w@.subrange(start as int, start as int + 16)),
{
    let mut acc: u128 = 0;
    let mut k: usize = 0;
    proof {
        lemma2_to64();
        assert(w@.subrange(start as int, start as int) =~= Seq::<u8>::empty());
    }
    while k < 16
        invariant
            k <= 16,
            start + 16 <= w@.len(),
            acc == be_val(w@.subrange(start as int, start as int + k)),
            acc < pow2((8 * k) as nat),
        decreases 16 - k,
    {
        proof {
            vstd::std_specs::vec::axiom_spec_len(w);
        }
        let b = w[start + k];
        proof {
            let s = start as int;
            let cur = w@.subrange(s, s + k + 1);
            assert(cur.drop_last() =~= w@.subrange(s, s + k));
            assert(cur.last() == w@[s + k]);
            lemma_pow2_adds((8 * k) as nat, 8);
            lemma2_to64();
            lemma_mul_inequality(acc as int, pow2((8 * k) as nat) - 1, 256);
            if k < 15 {
                vstd::arithmetic::power2::lemma_pow2_pos((8 * (15 - k)) as nat);
                lemma_pow2_adds((8 * (k + 1)) as nat, (8 * (15 - k)) as nat);
                lemma_mul_inequality(1, pow2((8 * (15 - k)) as nat) as int, pow2(
                    (8 * (k + 1)) as nat,
                ) as int);
            }
            lemma_pow2_128();
        }
        acc = acc * 256 + (b as u128);
        k += 1;
    }
    proof {
        assert(w@.subrange(start as int, start as int + 16) =~= w@.subrange(
            start as int,
            start as int + k,
        ));
    }
    acc
}

/// Decodes one 32-byte big-endian wire word into a [`WideUint`] whose value
/// is exactly the word's big-endian value.
pub fn wide_from_word(w: &Vec<u8>) -> (r: WideUint)
    requires
        w@.len() == 32,
    ensures
        r@ == be_val(w@),
{
    let hi = be_u128(w, 0);
    let lo = be_u128(w, 16);
    proof {
        let a = w@.subrange(0, 16);
        let b = w@.subrange(16, 32);
        assert(w@ =~= a + b);
        lemma_be_val_concat(a, b);
        lemma_be_val_bound(b);
        lemma_pow2_128();
    }
    WideUint { hi, lo }
}

} // verus!
