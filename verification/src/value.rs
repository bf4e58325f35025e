//! Transaction values and their signed net change.
//!
//! A value is a non-negative 64-bit quantity whose valid range is half the
//! width of its carrier; sums of values may swing negative. The net change
//! between an old and a new value is carried as a magnitude and a sign in
//! the field, feeding the short signed fixed-base multiplication.

use vstd::prelude::*;

use crate::field::{Fe, fe_from_u64, fe_neg, p_modulus};
use vstd::arithmetic::div_mod::{lemma_mod_multiples_vanish, lemma_small_mod};

verus! {

/// A value operation left its valid range.
#[derive(Copy, Clone, Debug, Eq, PartialEq, Structural)]
pub struct OverflowError;

/// A transaction value: a signed 64-bit carrier whose single values stay
/// within the non-negative 32-bit range.
#[derive(Copy, Clone, Debug, Eq, PartialEq, Structural)]
pub struct ValueType(pub i64);

/// The upper bound of a single value: one beyond half the carrier's width.
pub open spec fn value_bound() -> int {
    0x100000000
}

impl ValueType {
    /// Whether a carrier value is valid: sums may use the whole carrier,
    /// single values must be non-negative and below the bound.
    pub open spec fn spec_is_valid_range(v: i64, sum: bool) -> bool {
        if sum {
            true
        } else {
            0 <= v < value_bound()
        }
    }

    /// Whether a carrier value is valid, executably.
    pub fn is_valid_range(v: i64, sum: bool) -> (r: bool)
        ensures
            r == Self::spec_is_valid_range(v, sum),
    {
        if sum {
            true
        } else {
            0 <= v && v < 0x100000000i64
        }
    }

    /// Wraps a carrier value; rejected exactly outside the single-value
    /// range.
    pub fn from(value: i64) -> (r: Result<Self, OverflowError>)
        ensures
            r matches Ok(v) ==> v.0 == value,
            r is Ok <==> Self::spec_is_valid_range(value, false),
    {
        if Self::is_valid_range(value, false) {
            Ok(ValueType(value))
        } else {
            Err(OverflowError)
        }
    }

    /// The carrier value.
    pub fn value(self) -> (r: i64)
        ensures
            r == self.0,
    {
        self.0
    }

    /// The carrier value, widened.
    pub fn to_i128(self) -> (r: i128)
        ensures
            r == self.0 as i128,
    {
        self.0 as i128
    }

    /// The value as an unsigned quantity; `None` exactly when it is
    /// negative.
    pub fn to_u64(self) -> (r: Option<u64>)
        ensures
            r matches Some(v) ==> v == self.0 && self.0 >= 0,
            r is Some <==> self.0 >= 0,
    {
        if self.0 >= 0 {
            Some(self.0 as u64)
        } else {
            None
        }
    }

    /// The value as a field element; `None` exactly when it is negative.
    pub fn to_base(self) -> (r: Option<Fe>)
        ensures
            r matches Some(f) ==> f.wf() && f.val() == self.0 && self.0 >= 0,
            r is Some <==> self.0 >= 0,
    {
        match self.to_u64() {
            Some(v) => Some(fe_from_u64(v)),
            None => None,
        }
    }

    /// The zero value.
    pub fn zero() -> (r: Self)
        ensures
            r.0 == 0,
    {
        ValueType(0)
    }

    /// The sum where it stays on the carrier, else `None`.
    pub fn checked_add(self, rhs: Self) -> (r: Option<Self>)
        ensures
            r matches Some(v) ==> v.0 == self.0 + rhs.0,
            r is Some <==> i64::MIN <= self.0 + rhs.0 <= i64::MAX,
    {
        match self.0.checked_add(rhs.0) {
            Some(v) => Some(ValueType(v)),
            None => None,
        }
    }

    /// The difference where it stays on the carrier, else `None`.
    pub fn checked_sub(self, rhs: Self) -> (r: Option<Self>)
        ensures
            r matches Some(v) ==> v.0 == self.0 - rhs.0,
            r is Some <==> i64::MIN <= self.0 - rhs.0 <= i64::MAX,
    {
        match self.0.checked_sub(rhs.0) {
            Some(v) => Some(ValueType(v)),
            None => None,
        }
    }

    /// The product where it stays on the carrier, else `None`.
    pub fn checked_mul(self, rhs: Self) -> (r: Option<Self>)
        ensures
            r matches Some(v) ==> v.0 == self.0 * rhs.0,
            r is Some <==> i64::MIN <= self.0 * rhs.0 <= i64::MAX,
    {
        match self.0.checked_mul(rhs.0) {
            Some(v) => Some(ValueType(v)),
            None => None,
        }
    }
}

/// The magnitude of an old-to-new value change.
pub open spec fn spec_magnitude(v_old: u64, v_new: u64) -> nat {
    if v_old < v_new {
        (v_new - v_old) as nat
    } else {
        (v_old - v_new) as nat
    }
}

/// The field sign of an old-to-new value change: one where the old value
/// is not below the new, and minus one otherwise.
pub open spec fn spec_sign(v_old: u64, v_new: u64) -> nat {
    if v_old < v_new {
        (p_modulus() - 1) as nat
    } else {
        1
    }
}

/// The net change between an old and a new value, as field elements:
/// `magnitude = |old - new|` and `sign` one or minus one, the canonical
/// pair feeding a short signed fixed-base multiplication.
pub fn net_magnitude_sign(v_old: u64, v_new: u64) -> (r: (Fe, Fe))
    ensures
        r.0.wf(),
        r.1.wf(),
        r.0.val() == spec_magnitude(v_old, v_new),
        r.1.val() == spec_sign(v_old, v_new),
{
    let one = fe_from_u64(1);
    if v_old < v_new {
        let sign = fe_neg(&one);
        proof {
            lemma_small_mod((p_modulus() - 1) as nat, p_modulus());
        }
        (fe_from_u64(v_new - v_old), sign)
    } else {
        (fe_from_u64(v_old - v_new), one)
    }
}

/// The sign law: the signed magnitude is the old value minus the new one,
/// in the field. The magnitude is always non-negative, the sign one or
/// minus one, and their product mod p equals the Euclidean remainder of
/// `old - new` mod p.
pub proof fn lemma_signed_magnitude(v_old: u64, v_new: u64)
    ensures
        ((spec_sign(v_old, v_new) * spec_magnitude(v_old, v_new)) as int) % (p_modulus() as int) == (
        v_old as int - v_new as int) % (p_modulus() as int),
        spec_sign(v_old, v_new) == 1 || spec_sign(v_old, v_new) == p_modulus() - 1,
        spec_magnitude(v_old, v_new) < p_modulus(),
{
    let p = p_modulus() as int;
    if v_old < v_new {
        let m = (v_new - v_old) as int;
        assert((p - 1) * m == p * (m - 1) + (p - m)) by (nonlinear_arith);
        lemma_mod_multiples_vanish(m - 1, p - m, p);
        lemma_small_mod((p - m) as nat, p as nat);
        assert(v_old as int - v_new as int == p * (-1) + (p - m));
        lemma_mod_multiples_vanish(-1, p - m, p);
    } else {
        let m = (v_old - v_new) as int;
        lemma_small_mod(m as nat, p as nat);
    }
}


/// The unsigned 64-bit reading of a carrier value: its two's complement.
pub open spec fn spec_twos_complement(v: i64) -> nat {
    if v >= 0 {
        v as nat
    } else {
        (v + 0x10000000000000000) as nat
    }
}

impl ValueType {
    /// The 64 bits of the value's two's complement, least significant
    /// first.
    pub fn to_le_bits(self) -> (r: Vec<bool>)
        ensures
            r@.len() == 64,
            crate::bits::bits_val(r@) == spec_twos_complement(self.0),
    {
        let u: u64 = if self.0 >= 0 {
            self.0 as u64
        } else {
            ((self.0 as i128) + 0x10000000000000000i128) as u64
        };
        proof {
            vstd::arithmetic::power2::lemma2_to64();
        }
        crate::bits::u128_to_bits(u as u128, 64)
    }
}


/// The blinding scalar of a value commitment.
#[derive(Debug)]
pub struct ValueCommitTrapdoor(pub crate::field::Sc);

impl ValueCommitTrapdoor {
    /// The zero trapdoor, which blinds nothing.
    pub fn zero() -> (r: Self)
        ensures
            r.0.wf(),
            r.0.val() == 0,
    {
        ValueCommitTrapdoor(crate::field::sc_from_u64(0))
    }

    /// The scalar.
    pub fn value(&self) -> (r: &crate::field::Sc)
        ensures
            r == &self.0,
    {
        &self.0
    }
}

/// A value commitment: a curve point.
#[derive(Debug)]
pub struct ValueCommitment(pub crate::field::Pt);

impl ValueCommitment {
    /// The point.
    pub fn value(&self) -> (r: &crate::field::Pt)
        ensures
            r == &self.0,
    {
        &self.0
    }

    /// Decodes a value commitment; `None` exactly for undecodable bytes.
    pub fn from_bytes(bytes: &Vec<u8>) -> (r: Option<Self>)
        requires
            bytes@.len() == 32,
        ensures
            r is Some <==> crate::field::is_pt_enc(bytes@),
            r matches Some(c) ==> c.0.wf() && c.0.enc() == bytes@,
    {
        match crate::field::pt_from_bytes(bytes) {
            Some(p) => Some(ValueCommitment(p)),
            None => None,
        }
    }

    /// The commitment's encoding.
    pub fn to_bytes(&self) -> (r: &Vec<u8>)
        ensures
            r@ == self.0.enc(),
    {
        self.0.to_bytes()
    }

    /// The x-coordinate of the commitment, zero for the identity.
    pub fn x(&self) -> (r: Fe)
        requires
            self.0.wf(),
        ensures
            r.wf(),
            r.val() == crate::field::pt_x_of(self.0.enc()),
    {
        crate::field::pt_x(&self.0)
    }

    /// The y-coordinate of the commitment, zero for the identity.
    pub fn y(&self) -> (r: Fe)
        requires
            self.0.wf(),
        ensures
            r.wf(),
            r.val() == crate::field::pt_y_of(self.0.enc()),
    {
        crate::field::pt_y(&self.0)
    }
}


/// Relies on std's `i64::from_le_bytes`: the two's-complement reading of
/// eight little-endian bytes.
#[verifier::external_body]
fn i64_from_le_bytes(bytes: &Vec<u8>) -> (r: i64)
    requires
        bytes@.len() == 8,
    ensures
        spec_twos_complement(r) == crate::bits::bits_val(crate::bits::bytes_bits(bytes@)),
{
    i64::from_le_bytes(bytes.as_slice().try_into().unwrap())
}

/// Relies on std's `i64::to_le_bytes`: the little-endian bytes of the
/// two's complement.
#[verifier::external_body]
fn i64_to_le_bytes(v: i64) -> (r: Vec<u8>)
    ensures
        r@.len() == 8,
        crate::bits::bits_val(crate::bits::bytes_bits(r@)) == spec_twos_complement(v),
{
    v.to_le_bytes().to_vec()
}

impl ValueType {
    /// Reads a value from its eight little-endian carrier bytes. The two's
    /// complement is a bijection, so the bytes pin the value.
    pub fn from_bytes(bytes: &Vec<u8>) -> (r: Self)
        requires
            bytes@.len() == 8,
        ensures
            spec_twos_complement(r.0) == crate::bits::bits_val(
                crate::bits::bytes_bits(bytes@),
            ),
    {
        ValueType(i64_from_le_bytes(bytes))
    }

    /// The eight little-endian carrier bytes of the value.
    pub fn to_bytes(self) -> (r: Vec<u8>)
        ensures
            r@.len() == 8,
            crate::bits::bits_val(crate::bits::bytes_bits(r@)) == spec_twos_complement(self.0),
    {
        i64_to_le_bytes(self.0)
    }
}

} // verus!
