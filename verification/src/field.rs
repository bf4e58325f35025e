//! Field elements, scalars and curve points as canonical little-endian bytes.
//!
//! The Pallas base field and scalar field live in the `pasta_curves` crate;
//! this module holds each value as its canonical 32-byte encoding, states the
//! arithmetic over the mathematical value of those bytes, and calls the
//! outside crate for the arithmetic itself.

use vstd::prelude::*;

use crate::bits::{bits_val, bytes_bits, lemma_bytes_bits_len, lemma_bytes_bits_val};
use vstd::arithmetic::power2::pow2;
use vstd::std_specs::cmp::PartialEqSpec;

verus! {

/// The Pallas base-field modulus.
pub open spec fn p_modulus() -> nat {
    0x40000000000000000000000000000000224698fc094cf91b992d30ed00000001nat
}

/// The Pallas scalar-field modulus.
pub open spec fn q_modulus() -> nat {
    0x40000000000000000000000000000000224698fc0994a8dd8c46eb2100000001nat
}

/// The low half of the base-field modulus: `p = 2^254 + T_P`.
pub const T_P: u128 = 45560315531419706090280762371685220353;

/// The low half of the scalar-field modulus: `q = 2^254 + T_Q`.
pub const T_Q: u128 = 45560315531506369815346746415080538113;

/// A Pallas base-field element, kept as its canonical little-endian bytes.
#[derive(Debug)]
pub struct Fe {
    pub bytes: Vec<u8>,
}

/// A Pallas scalar, kept as its canonical little-endian bytes.
#[derive(Debug)]
pub struct Sc {
    pub bytes: Vec<u8>,
}

/// A Pallas point, kept as its 32-byte compressed encoding.
#[derive(Debug)]
pub struct Pt {
    pub bytes: Vec<u8>,
}

impl Fe {
    /// The integer this element stands for.
    pub open spec fn val(&self) -> nat {
        bits_val(bytes_bits(self.bytes@))
    }

    /// Canonical: 32 bytes whose value lies below the modulus.
    pub open spec fn wf(&self) -> bool {
        self.bytes@.len() == 32 && self.val() < p_modulus()
    }

    /// The canonical byte encoding.
    pub fn to_bytes(&self) -> (r: &Vec<u8>)
        ensures
            r@ == self.bytes@,
            bits_val(bytes_bits(r@)) == self.val(),
    {
        &self.bytes
    }

    /// The element's 255 bits, least significant first.
    pub fn to_bits(&self) -> (r: Vec<bool>)
        requires
            self.wf(),
        ensures
            r@.len() == 255,
            r@ =~= bytes_bits(self.bytes@).take(255),
            bits_val(r@) == self.val(),
    {
        proof {
            lemma_bytes_bits_len(self.bytes@);
        }
        let bits = crate::bits::bytes_to_bits(&self.bytes, 255);
        proof {
            lemma_fe_top_bit_clear(self);
            crate::bits::lemma_bits_val_split(bytes_bits(self.bytes@), 255);
            crate::bits::lemma_bits_val_zero(bytes_bits(self.bytes@).skip(255));
        }
        bits
    }
}

impl Clone for Fe {
    fn clone(&self) -> (r: Self)
        ensures
            r.bytes@ == self.bytes@,
            r.val() == self.val(),
            r.wf() == self.wf(),
    {
        Fe { bytes: self.bytes.clone() }
    }
}

impl Sc {
    /// The integer this scalar stands for.
    pub open spec fn val(&self) -> nat {
        bits_val(bytes_bits(self.bytes@))
    }

    /// Canonical: 32 bytes whose value lies below the scalar modulus.
    pub open spec fn wf(&self) -> bool {
        self.bytes@.len() == 32 && self.val() < q_modulus()
    }

    /// The canonical byte encoding, in specifications.
    pub open spec fn to_bytes_spec(&self) -> Seq<u8> {
        self.bytes@
    }

    /// The canonical byte encoding.
    pub fn to_bytes(&self) -> (r: &Vec<u8>)
        ensures
            r@ == self.bytes@,
    {
        &self.bytes
    }
}

impl Clone for Sc {
    fn clone(&self) -> (r: Self)
        ensures
            r.bytes@ == self.bytes@,
            r.val() == self.val(),
            r.wf() == self.wf(),
    {
        Sc { bytes: self.bytes.clone() }
    }
}

impl Pt {
    /// A point is its 32-byte compressed encoding.
    pub open spec fn enc(&self) -> Seq<u8> {
        self.bytes@
    }

    /// Well-formed: 32 bytes that decode to a point.
    pub open spec fn wf(&self) -> bool {
        self.bytes@.len() == 32 && is_pt_enc(self.bytes@)
    }

    /// The compressed encoding.
    pub fn to_bytes(&self) -> (r: &Vec<u8>)
        ensures
            r@ == self.enc(),
    {
        &self.bytes
    }
}

impl Clone for Pt {
    fn clone(&self) -> (r: Self)
        ensures
            r.enc() == self.enc(),
            r.wf() == self.wf(),
    {
        Pt { bytes: self.bytes.clone() }
    }
}

/// A canonical element keeps its top bit clear, since the modulus is below
/// two to the 255.
pub proof fn lemma_fe_top_bit_clear(fe: &Fe)
    requires
        fe.wf(),
    ensures
        bytes_bits(fe.bytes@).len() == 256,
        forall|j: int| 255 <= j < 256 ==> !bytes_bits(fe.bytes@)[j],
{
    let bs = bytes_bits(fe.bytes@);
    lemma_bytes_bits_len(fe.bytes@);
    crate::bits::lemma_bits_val_split(bs, 255);
    if bs[255] {
        assert(bits_val(bs.skip(255)) >= 1) by {
            crate::bits::lemma_bits_val_zero(bs.skip(255));
        }
        assert(pow2(255) * bits_val(bs.skip(255)) >= pow2(255) * 1) by (nonlinear_arith)
            requires
                bits_val(bs.skip(255)) >= 1,
        ;
        lemma_pow2_255_value();
    }
}

/// The value of two to the 255, spelled out once.
pub proof fn lemma_pow2_255_value()
    ensures
        pow2(255)
            == 0x8000000000000000000000000000000000000000000000000000000000000000nat,
{
    vstd::arithmetic::power2::lemma2_to64();
    vstd::arithmetic::power2::lemma2_to64_rest();
    vstd::arithmetic::power2::lemma_pow2_adds(64, 64);
    assert(pow2(128) == 0x100000000000000000000000000000000nat);
    vstd::arithmetic::power2::lemma_pow2_adds(128, 64);
    assert(pow2(192) == 0x1000000000000000000000000000000000000000000000000nat);
    vstd::arithmetic::power2::lemma_pow2_adds(192, 63);
    assert(pow2(63) == 0x8000000000000000nat);
}

/// Two canonical byte strings of one length with one value are the same
/// string.
pub proof fn lemma_bytes_val_injective(a: Seq<u8>, b: Seq<u8>)
    requires
        a.len() == b.len(),
        bits_val(bytes_bits(a)) == bits_val(bytes_bits(b)),
    ensures
        a =~= b,
    decreases a.len(),
{
    if a.len() > 0 {
        lemma_bytes_bits_val(a);
        lemma_bytes_bits_val(b);
        let ra = bits_val(bytes_bits(a.drop_first()));
        let rb = bits_val(bytes_bits(b.drop_first()));
        assert(a[0] + 256 * ra == b[0] + 256 * rb);
        assert(a[0] == b[0] && ra == rb) by (nonlinear_arith)
            requires
                a[0] + 256 * ra == b[0] + 256 * rb,
                0 <= a[0] < 256,
                0 <= b[0] < 256,
        ;
        lemma_bytes_val_injective(a.drop_first(), b.drop_first());
        assert(a =~= seq![a[0]] + a.drop_first());
    }
}

/// Equality of field elements, decided on the canonical bytes.
impl PartialEq for Fe {
    fn eq(&self, other: &Self) -> (r: bool) {
        let mut i: usize = 0;
        if self.bytes.len() != other.bytes.len() {
            return false;
        }
        while i < self.bytes.len()
            invariant
                i <= self.bytes@.len(),
                self.bytes@.len() == other.bytes@.len(),
                forall|j: int| 0 <= j < i ==> self.bytes@[j] == other.bytes@[j],
            decreases self.bytes@.len() - i,
        {
            if self.bytes[i] != other.bytes[i] {
                return false;
            }
            i = i + 1;
        }
        proof {
            assert(self.bytes@ =~= other.bytes@);
        }
        true
    }
}

impl vstd::std_specs::cmp::PartialEqSpecImpl for Fe {
    open spec fn obeys_eq_spec() -> bool {
        true
    }

    open spec fn eq_spec(&self, other: &Self) -> bool {
        self.bytes@ == other.bytes@
    }
}

impl Eq for Fe {}

/// Canonical elements are equal exactly when their values are equal.
pub proof fn lemma_fe_eq_iff_val_eq(a: &Fe, b: &Fe)
    requires
        a.wf(),
        b.wf(),
    ensures
        (a.eq_spec(b)) <==> (a.val() == b.val()),
{
    if a.val() == b.val() {
        lemma_bytes_val_injective(a.bytes@, b.bytes@);
    }
}

// ------------------------------------------------------------------
// Trusted arithmetic, through pasta_curves.
// ------------------------------------------------------------------

/// Relies on `pasta_curves::Fp` addition with `ff::PrimeField`'s
/// `from_repr`/`to_repr`: on canonical representatives it returns the
/// canonical representative of the sum mod p.
#[verifier::external_body]
pub(crate) fn fe_add(a: &Fe, b: &Fe) -> (r: Fe)
    requires
        a.wf(),
        b.wf(),
    ensures
        r.wf(),
        r.val() == (a.val() + b.val()) % p_modulus(),
{
    let fa = <pasta_curves::Fp as ff::PrimeField>::from_repr(
        a.bytes.as_slice().try_into().unwrap(),
    ).unwrap();
    let fb = <pasta_curves::Fp as ff::PrimeField>::from_repr(
        b.bytes.as_slice().try_into().unwrap(),
    ).unwrap();
    Fe { bytes: ff::PrimeField::to_repr(&(fa + fb)).to_vec() }
}

/// Relies on `pasta_curves::Fp` subtraction: the canonical representative
/// of the difference mod p.
#[verifier::external_body]
pub(crate) fn fe_sub(a: &Fe, b: &Fe) -> (r: Fe)
    requires
        a.wf(),
        b.wf(),
    ensures
        r.wf(),
        r.val() == ((a.val() + p_modulus()) - b.val()) % (p_modulus() as int),
{
    let fa = <pasta_curves::Fp as ff::PrimeField>::from_repr(
        a.bytes.as_slice().try_into().unwrap(),
    ).unwrap();
    let fb = <pasta_curves::Fp as ff::PrimeField>::from_repr(
        b.bytes.as_slice().try_into().unwrap(),
    ).unwrap();
    Fe { bytes: ff::PrimeField::to_repr(&(fa - fb)).to_vec() }
}

/// Relies on `pasta_curves::Fp` multiplication: the canonical
/// representative of the product mod p.
#[verifier::external_body]
pub(crate) fn fe_mul(a: &Fe, b: &Fe) -> (r: Fe)
    requires
        a.wf(),
        b.wf(),
    ensures
        r.wf(),
        r.val() == (a.val() * b.val()) % p_modulus(),
{
    let fa = <pasta_curves::Fp as ff::PrimeField>::from_repr(
        a.bytes.as_slice().try_into().unwrap(),
    ).unwrap();
    let fb = <pasta_curves::Fp as ff::PrimeField>::from_repr(
        b.bytes.as_slice().try_into().unwrap(),
    ).unwrap();
    Fe { bytes: ff::PrimeField::to_repr(&(fa * fb)).to_vec() }
}

/// Relies on `pasta_curves::Fp` negation: the canonical representative of
/// `p - a` for non-zero `a`, and zero for zero.
#[verifier::external_body]
pub(crate) fn fe_neg(a: &Fe) -> (r: Fe)
    requires
        a.wf(),
    ensures
        r.wf(),
        r.val() == (p_modulus() - a.val()) % (p_modulus() as int),
{
    let fa = <pasta_curves::Fp as ff::PrimeField>::from_repr(
        a.bytes.as_slice().try_into().unwrap(),
    ).unwrap();
    Fe { bytes: ff::PrimeField::to_repr(&(-fa)).to_vec() }
}

/// Relies on `pasta_curves::Fp::from(u64)` and `to_repr`: the canonical
/// encoding of a small integer.
#[verifier::external_body]
pub fn fe_from_u64(x: u64) -> (r: Fe)
    ensures
        r.wf(),
        r.val() == x,
{
    Fe { bytes: ff::PrimeField::to_repr(&pasta_curves::Fp::from(x)).to_vec() }
}

/// The canonical element of an integer below two to the 128, assembled
/// from its two 64-bit halves.
pub fn fe_from_u128(x: u128) -> (r: Fe)
    ensures
        r.wf(),
        r.val() == x,
{
    proof {
        lemma_pow2_255_value();
        vstd::arithmetic::power2::lemma2_to64();
        vstd::arithmetic::power2::lemma_pow2_adds(64, 64);
    }
    let divisor: u128 = 0x10000000000000000;
    let hv: u128 = x / divisor;
    let lv: u128 = x % divisor;
    proof {
        vstd::arithmetic::div_mod::lemma_fundamental_div_mod(x as int, divisor as int);
        assert(hv < 0x10000000000000000 && lv < 0x10000000000000000);
    }
    let lo = fe_from_u64(lv as u64);
    let hi = fe_from_u64(hv as u64);
    let two64 = fe_add(&fe_from_u64(u64::MAX), &fe_from_u64(1));
    proof {
        vstd::arithmetic::div_mod::lemma_small_mod((u64::MAX + 1) as nat, p_modulus());
    }
    let shifted = fe_mul(&hi, &two64);
    proof {
        assert(hv * pow2(64) + lv == x) by (nonlinear_arith)
            requires
                x == divisor * hv + lv,
                divisor == pow2(64),
        ;
        assert(hv * pow2(64) < p_modulus()) by (nonlinear_arith)
            requires
                hv * pow2(64) + lv == x,
                x < 0x100000000000000000000000000000000,
                p_modulus() > 0x100000000000000000000000000000000,
        ;
        vstd::arithmetic::div_mod::lemma_small_mod((hv * pow2(64)) as nat, p_modulus());
        vstd::arithmetic::div_mod::lemma_small_mod(x as nat, p_modulus());
    }
    fe_add(&shifted, &lo)
}

/// Builds the canonical element of given little-endian bytes, `None`
/// exactly when their value is not below the modulus. Relies on
/// `from_repr`, which accepts exactly the canonical encodings, and on the
/// round trip through `to_repr`.
#[verifier::external_body]
pub fn fe_from_bytes(bytes: &Vec<u8>) -> (r: Option<Fe>)
    requires
        bytes@.len() == 32,
    ensures
        r is Some <==> bits_val(bytes_bits(bytes@)) < p_modulus(),
        r matches Some(fe) ==> fe.wf() && fe.bytes@ == bytes@,
{
    let arr: [u8; 32] = bytes.as_slice().try_into().unwrap();
    let ct = <pasta_curves::Fp as ff::PrimeField>::from_repr(arr);
    let fp: Option<pasta_curves::Fp> = ct.into();
    fp.map(|f| Fe { bytes: ff::PrimeField::to_repr(&f).to_vec() })
}

/// Relies on `pasta_curves::Fq::from(u64)`: the canonical encoding of a
/// small scalar.
#[verifier::external_body]
pub fn sc_from_u64(x: u64) -> (r: Sc)
    ensures
        r.wf(),
        r.val() == x,
{
    Sc { bytes: ff::PrimeField::to_repr(&pasta_curves::Fq::from(x)).to_vec() }
}

/// Lifts a base-field element to the scalar field. The base modulus is
/// below the scalar modulus, so the value is kept as it is. Relies on
/// `Fq::from_repr` over the canonical base encoding.
#[verifier::external_body]
pub(crate) fn fe_to_scalar(x: &Fe) -> (r: Sc)
    requires
        x.wf(),
    ensures
        r.wf(),
        r.val() == x.val(),
{
    let arr: [u8; 32] = x.bytes.as_slice().try_into().unwrap();
    let fq = <pasta_curves::Fq as ff::PrimeField>::from_repr(arr).unwrap();
    Sc { bytes: ff::PrimeField::to_repr(&fq).to_vec() }
}

/// Relies on `pasta_curves::Fq` negation: the canonical representative of
/// `q - s` for non-zero `s`, and zero for zero.
#[verifier::external_body]
pub(crate) fn sc_neg(s: &Sc) -> (r: Sc)
    requires
        s.wf(),
    ensures
        r.wf(),
        r.val() == (q_modulus() - s.val()) % (q_modulus() as int),
{
    let fs = <pasta_curves::Fq as ff::PrimeField>::from_repr(
        s.bytes.as_slice().try_into().unwrap(),
    ).unwrap();
    Sc { bytes: ff::PrimeField::to_repr(&(-fs)).to_vec() }
}

// ------------------------------------------------------------------
// Trusted point operations, through pasta_curves.
// ------------------------------------------------------------------

/// Whether 32 bytes are the compressed encoding of a Pallas point, as
/// `group::GroupEncoding::from_bytes` decides it.
pub uninterp spec fn is_pt_enc(b: Seq<u8>) -> bool;

/// Whether a coordinate pair names a Pallas point, as
/// `CurveAffine::from_xy` decides it.
pub uninterp spec fn pt_xy_decodes(x: Seq<u8>, y: Seq<u8>) -> bool;

/// Whether some curve point has the given x-coordinate, i.e. whether
/// `x^3 + b` has a square root.
pub uninterp spec fn x_on_curve(x: Seq<u8>) -> bool;

/// What Pallas point addition returns, as a function of the two compressed
/// encodings.
pub uninterp spec fn pt_add_of(a: Seq<u8>, b: Seq<u8>) -> Seq<u8>;

/// What Pallas scalar multiplication returns, as a function of the point's
/// encoding and the scalar's value.
pub uninterp spec fn pt_mul_of(p: Seq<u8>, s: nat) -> Seq<u8>;

/// The value of the x-coordinate of an encoded point, zero for the identity.
pub uninterp spec fn pt_x_of(p: Seq<u8>) -> nat;

/// The value of the y-coordinate of an encoded point, zero for the identity.
pub uninterp spec fn pt_y_of(p: Seq<u8>) -> nat;

/// The value of the fixed two-to-one Poseidon hash of two field values.
pub uninterp spec fn poseidon2_of(a: nat, b: nat) -> nat;

/// The encoding of the affine point with the given coordinates.
pub uninterp spec fn pt_of_xy(x: Seq<u8>, y: Seq<u8>) -> Seq<u8>;

/// What Pallas hash-to-curve returns for a domain prefix and a message.
pub uninterp spec fn hash_to_curve_of(domain: Seq<char>, msg: Seq<u8>) -> Seq<u8>;

/// Relies on `pasta_curves::Ep` point addition and `group::GroupEncoding`:
/// the sum's encoding depends on the operand encodings alone. Well-formed
/// operands keep the decodes from panicking.
#[verifier::external_body]
pub(crate) fn pt_add(a: &Pt, b: &Pt) -> (r: Pt)
    requires
        a.wf(),
        b.wf(),
    ensures
        r.wf(),
        r.enc() == pt_add_of(a.enc(), b.enc()),
{
    let pa = <pasta_curves::Ep as group::GroupEncoding>::from_bytes(
        &a.bytes.as_slice().try_into().unwrap(),
    ).unwrap();
    let pb = <pasta_curves::Ep as group::GroupEncoding>::from_bytes(
        &b.bytes.as_slice().try_into().unwrap(),
    ).unwrap();
    Pt { bytes: group::GroupEncoding::to_bytes(&(pa + pb)).to_vec() }
}

/// Relies on `pasta_curves::Ep` scalar multiplication: the product's
/// encoding depends on the point and scalar encodings alone. Well-formed
/// operands keep the decodes from panicking.
#[verifier::external_body]
pub(crate) fn pt_mul(p: &Pt, s: &Sc) -> (r: Pt)
    requires
        p.wf(),
        s.wf(),
    ensures
        r.wf(),
        r.enc() == pt_mul_of(p.enc(), s.val()),
{
    let pp = <pasta_curves::Ep as group::GroupEncoding>::from_bytes(
        &p.bytes.as_slice().try_into().unwrap(),
    ).unwrap();
    let fs = <pasta_curves::Fq as ff::PrimeField>::from_repr(
        s.bytes.as_slice().try_into().unwrap(),
    ).unwrap();
    Pt { bytes: group::GroupEncoding::to_bytes(&(pp * fs)).to_vec() }
}

/// Relies on `group::Curve::to_affine` and `CurveAffine::coordinates`: the
/// x-coordinate of the point, zero for the identity.
#[verifier::external_body]
pub(crate) fn pt_x(p: &Pt) -> (r: Fe)
    requires
        p.wf(),
    ensures
        r.wf(),
        r.val() == pt_x_of(p.enc()),
{
    let pp = <pasta_curves::Ep as group::GroupEncoding>::from_bytes(
        &p.bytes.as_slice().try_into().unwrap(),
    ).unwrap();
    let c = pasta_curves::arithmetic::CurveAffine::coordinates(&group::Curve::to_affine(&pp));
    let x = c.map(|c| *c.x()).unwrap_or(pasta_curves::Fp::zero());
    Fe { bytes: ff::PrimeField::to_repr(&x).to_vec() }
}

/// Relies on `group::Curve::to_affine` and `CurveAffine::coordinates`: the
/// y-coordinate of the point, zero for the identity.
#[verifier::external_body]
pub(crate) fn pt_y(p: &Pt) -> (r: Fe)
    requires
        p.wf(),
    ensures
        r.wf(),
        r.val() == pt_y_of(p.enc()),
{
    let pp = <pasta_curves::Ep as group::GroupEncoding>::from_bytes(
        &p.bytes.as_slice().try_into().unwrap(),
    ).unwrap();
    let c = pasta_curves::arithmetic::CurveAffine::coordinates(&group::Curve::to_affine(&pp));
    let y = c.map(|c| *c.y()).unwrap_or(pasta_curves::Fp::zero());
    Fe { bytes: ff::PrimeField::to_repr(&y).to_vec() }
}

/// Builds a point of affine coordinates; `None` exactly when they lie on
/// no curve point. Relies on `pasta_curves::EpAffine::from_xy`, whose
/// acceptance is a function of the coordinate bytes alone.
#[verifier::external_body]
pub(crate) fn pt_from_xy(x: &Vec<u8>, y: &Vec<u8>) -> (r: Option<Pt>)
    requires
        x@.len() == 32,
        y@.len() == 32,
    ensures
        r is Some <==> pt_xy_decodes(x@, y@),
        r matches Some(p) ==> p.wf() && p.enc() == pt_of_xy(x@, y@),
{
    let fx = <pasta_curves::Fp as ff::PrimeField>::from_repr(x.as_slice().try_into().unwrap());
    let fy = <pasta_curves::Fp as ff::PrimeField>::from_repr(y.as_slice().try_into().unwrap());
    if fx.is_none().into() || fy.is_none().into() {
        return None;
    }
    let a: Option<pasta_curves::EpAffine> = <pasta_curves::EpAffine as
        pasta_curves::arithmetic::CurveAffine>::from_xy(fx.unwrap(), fy.unwrap()).into();
    a.map(|a| Pt {
        bytes: group::GroupEncoding::to_bytes(&group::prime::PrimeCurveAffine::to_curve(&a)).to_vec(),
    })
}

/// Decodes a compressed point; `None` exactly when the bytes encode no
/// point. Relies on `group::GroupEncoding::from_bytes`, whose acceptance
/// is a function of the bytes alone, and on the round trip through
/// `to_bytes`, which returns the accepted encoding as it is.
#[verifier::external_body]
pub fn pt_from_bytes(bytes: &Vec<u8>) -> (r: Option<Pt>)
    requires
        bytes@.len() == 32,
    ensures
        r is Some <==> is_pt_enc(bytes@),
        r matches Some(p) ==> p.wf() && p.enc() == bytes@,
{
    let arr: [u8; 32] = bytes.as_slice().try_into().unwrap();
    let ct = <pasta_curves::Ep as group::GroupEncoding>::from_bytes(&arr);
    let p: Option<pasta_curves::Ep> = ct.into();
    p.map(|p| Pt { bytes: group::GroupEncoding::to_bytes(&p).to_vec() })
}

/// Relies on the Poseidon primitives' two-to-one hash over the Pallas base
/// field, whose result depends on the two inputs alone.
#[verifier::external_body]
pub(crate) fn poseidon_hash2(a: &Fe, b: &Fe) -> (r: Fe)
    requires
        a.wf(),
        b.wf(),
    ensures
        r.wf(),
        r.val() == poseidon2_of(a.val(), b.val()),
{
    let fa = <pasta_curves::Fp as ff::PrimeField>::from_repr(
        a.bytes.as_slice().try_into().unwrap(),
    ).unwrap();
    let fb = <pasta_curves::Fp as ff::PrimeField>::from_repr(
        b.bytes.as_slice().try_into().unwrap(),
    ).unwrap();
    let h = halo2_gadgets::poseidon::primitives::Hash::<
        pasta_curves::Fp,
        halo2_gadgets::poseidon::primitives::P128Pow5T3,
        halo2_gadgets::poseidon::primitives::ConstantLength<2>,
        3,
        2,
    >::init().hash([fa, fb]);
    Fe { bytes: ff::PrimeField::to_repr(&h).to_vec() }
}

/// Relies on `pasta_curves::Ep::hash_to_curve`: the result depends on the
/// domain prefix and the message alone.
#[verifier::external_body]
pub(crate) fn hash_to_curve_point(domain: &str, msg: &Vec<u8>) -> (r: Pt)
    ensures
        r.wf(),
        r.enc() == hash_to_curve_of(domain@, msg@),
{
    let hasher = <pasta_curves::Ep as pasta_curves::arithmetic::CurveExt>::hash_to_curve(domain);
    Pt { bytes: group::GroupEncoding::to_bytes(&hasher(msg.as_slice())).to_vec() }
}


/// The encoding of the curve point with the given x-coordinate whose
/// y-coordinate has the given parity.
pub uninterp spec fn pt_of_x_parity(x: Seq<u8>, odd: bool) -> Seq<u8>;

/// Relies on the curve equation through `ff::Field::sqrt` and
/// `CurveAffine::from_xy`: reconstructs the point over a given
/// x-coordinate, choosing the square root whose parity matches. `None`
/// exactly when no point has that x-coordinate, which depends on the
/// x-coordinate alone.
#[verifier::external_body]
pub(crate) fn pt_from_x_parity(x: &Fe, odd: bool) -> (r: Option<Pt>)
    requires
        x.wf(),
    ensures
        r is Some <==> x_on_curve(x.bytes@),
        r matches Some(p) ==> p.wf() && p.enc() == pt_of_x_parity(x.bytes@, odd),
{
    let fx = <pasta_curves::Fp as ff::PrimeField>::from_repr(
        x.bytes.as_slice().try_into().unwrap(),
    ).unwrap();
    let b = <pasta_curves::EpAffine as pasta_curves::arithmetic::CurveAffine>::b();
    let y2 = fx * fx * fx + b;
    let y: Option<pasta_curves::Fp> = ff::Field::sqrt(&y2).into();
    let mut y = y?;
    if bool::from(<pasta_curves::Fp as ff::PrimeField>::is_odd(&y)) != odd {
        y = -y;
    }
    let a: Option<pasta_curves::EpAffine> =
        pasta_curves::arithmetic::CurveAffine::from_xy(fx, y).into();
    a.map(|a| Pt {
        bytes: group::GroupEncoding::to_bytes(&group::prime::PrimeCurveAffine::to_curve(&a)).to_vec(),
    })
}

/// Whether a canonical element is odd, read off its lowest bit.
pub fn fe_is_odd(f: &Fe) -> (r: bool)
    requires
        f.wf(),
    ensures
        r == (f.val() % 2 == 1),
{
    let b = f.bytes[0];
    proof {
        lemma_bytes_bits_val(f.bytes@);
        let b0 = f.bytes@[0];
        crate::bits::lemma_byte_bits_val(b0);
        let rest = bits_val(bytes_bits(f.bytes@.drop_first()));
        assert(f.val() == b0 + 256 * rest);
        assert(b0 == (b0 & 1) + 2 * ((b0 >> 1) & 1) + 4 * ((b0 >> 2) & 1) + 8 * ((b0 >> 3) & 1)
            + 16 * ((b0 >> 4) & 1) + 32 * ((b0 >> 5) & 1) + 64 * ((b0 >> 6) & 1) + 128 * ((b0
            >> 7) & 1)) by (bit_vector);
        assert((b0 & 1) <= 1) by (bit_vector);
        let low: int = (b0 & 1) as int;
        let high: int = f.val() as int - low;
        assert(high % 2 == 0) by (nonlinear_arith)
            requires
                high == 2 * (((b0 >> 1) & 1) + 2 * ((b0 >> 2) & 1) + 4 * ((b0 >> 3) & 1) + 8 * ((
                b0 >> 4) & 1) + 16 * ((b0 >> 5) & 1) + 32 * ((b0 >> 6) & 1) + 64 * ((b0 >> 7) & 1)
                    + 128 * (bits_val(bytes_bits(f.bytes@.drop_first())) as int)),
        ;
        vstd::arithmetic::div_mod::lemma_add_mod_noop(high, low, 2);
        assert(low % 2 == low);
        assert(high % 2 + low % 2 == low);
        assert((f.val() as int) % 2 == low % 2) by {
            assert(f.val() as int == high + low);
        }
        assert((b & 1 == 1) == (low == 1));
    }
    b & 1 == 1
}

/// A Pallas point that is not the identity, as its encoding; the identity
/// encodes as all-zero bytes, which this type refuses.
#[derive(Debug)]
pub struct NonIdentityPallasPoint(pub Pt);

impl NonIdentityPallasPoint {
    /// The point.
    pub fn value(&self) -> (r: &Pt)
        ensures
            r == &self.0,
    {
        &self.0
    }

    /// Decodes a non-identity point; `None` exactly for undecodable bytes
    /// and for the identity's all-zero encoding.
    pub fn from_bytes(bytes: &Vec<u8>) -> (r: Option<Self>)
        requires
            bytes@.len() == 32,
        ensures
            r is Some <==> is_pt_enc(bytes@) && (exists|i: int| 0 <= i < 32 && bytes@[i] != 0),
            r matches Some(p) ==> p.0.wf() && p.0.enc() == bytes@,
    {
        let mut any_set = false;
        let mut i: usize = 0;
        while i < bytes.len()
            invariant
                i <= bytes@.len(),
                any_set == exists|j: int| 0 <= j < i && bytes@[j] != 0,
            decreases bytes@.len() - i,
        {
            if bytes[i] != 0 {
                any_set = true;
            }
            i = i + 1;
        }
        if !any_set {
            return None;
        }
        match pt_from_bytes(bytes) {
            Some(p) => Some(NonIdentityPallasPoint(p)),
            None => None,
        }
    }

    /// Multiplies the point by a scalar.
    pub fn mul(&self, r: &Sc) -> (out: Pt)
        requires
            self.0.wf(),
            r.wf(),
        ensures
            out.wf(),
            out.enc() == pt_mul_of(self.0.enc(), r.val()),
    {
        pt_mul(&self.0, r)
    }
}

} // verus!
