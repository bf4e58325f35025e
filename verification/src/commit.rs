//! The canonical commitment: hash-to-curve commitments over bit strings,
//! piece and slice composition, and bit-level canonicity proofs.
//!
//! A commitment hashes the concatenated bits of its named inputs and blinds
//! the result with a scalar; the short variant keeps only the x-coordinate.
//! A piece is recomposed from gapless slices, and any piece whose width
//! crosses the field size carries a canonicity witness whose running sum
//! vanishes exactly on canonical values.

use vstd::prelude::*;

use crate::bits::{
    add_bits, bits_val, concat_bits, lemma_bits_val_bound, lemma_bits_val_concat,
    lemma_bits_val_injective, lemma_bits_val_split, lemma_bits_val_zero, lemma_val_bits_props,
    pad_bits, skip_bits, u128_to_bits, val_bits,
};
use crate::field::{Fe, Pt, Sc, T_P, fe_add, fe_from_u64, fe_mul, p_modulus, pt_x, pt_x_of};
use crate::engine::SynthesisError;
use vstd::arithmetic::power2::{pow2, lemma_pow2_adds, lemma_pow2_pos, lemma2_to64};

verus! {

// ------------------------------------------------------------------
// The hash and commitment primitives, trusted.
// ------------------------------------------------------------------

/// What the sinsemilla primitives' `HashDomain::hash` returns: the value of
/// the hash of a message in a domain, `None` where the hash lands on the
/// identity.
pub uninterp spec fn sinsemilla_hash_of(domain: Seq<char>, msg: Seq<bool>) -> Option<nat>;

/// What `CommitDomain::commit` returns: the encoding of the blinded
/// commitment point.
pub uninterp spec fn commit_of(domain: Seq<char>, msg: Seq<bool>, r: nat) -> Option<Seq<u8>>;

/// What `CommitDomain::short_commit` returns: the x-coordinate value of the
/// blinded commitment point.
pub uninterp spec fn short_commit_of(domain: Seq<char>, msg: Seq<bool>, r: nat) -> Option<nat>;

/// The longest message the hash accepts.
pub open spec fn max_hash_bits() -> int {
    2530
}

/// Relies on the sinsemilla primitives' `HashDomain::new(domain).hash`: a
/// function of the domain and message alone. The primitive panics past its
/// message cap, so the cap is required here.
#[verifier::external_body]
pub(crate) fn sinsemilla_hash(domain: &str, msg: &Vec<bool>) -> (r: Option<Fe>)
    requires
        msg@.len() <= max_hash_bits(),
    ensures
        r is Some <==> sinsemilla_hash_of(domain@, msg@) is Some,
        r matches Some(f) ==> f.wf() && Some(f.val()) == sinsemilla_hash_of(domain@, msg@),
{
    let d = halo2_gadgets::sinsemilla::primitives::HashDomain::new(domain);
    let h: Option<pasta_curves::Fp> = d.hash(msg.iter().copied()).into();
    h.map(|f| Fe { bytes: ff::PrimeField::to_repr(&f).to_vec() })
}

/// Relies on `CommitDomain::new(domain).commit`: a function of the domain,
/// the message and the blinding scalar alone.
#[verifier::external_body]
pub(crate) fn sinsemilla_commit(domain: &str, msg: &Vec<bool>, r: &Sc) -> (out: Option<Pt>)
    requires
        msg@.len() <= max_hash_bits(),
        r.wf(),
    ensures
        out is Some <==> commit_of(domain@, msg@, r.val()) is Some,
        out matches Some(p) ==> p.wf() && Some(p.enc()) == commit_of(domain@, msg@, r.val()),
{
    let d = halo2_gadgets::sinsemilla::primitives::CommitDomain::new(domain);
    let fr = <pasta_curves::Fq as ff::PrimeField>::from_repr(
        r.bytes.as_slice().try_into().unwrap(),
    ).unwrap();
    let c: Option<pasta_curves::Ep> = d.commit(msg.iter().copied(), &fr).into();
    c.map(|p| Pt { bytes: group::GroupEncoding::to_bytes(&p).to_vec() })
}

/// Relies on `CommitDomain::new(domain).short_commit`: a function of the
/// domain, the message and the blinding scalar alone.
#[verifier::external_body]
pub(crate) fn sinsemilla_short_commit(domain: &str, msg: &Vec<bool>, r: &Sc) -> (out: Option<Fe>)
    requires
        msg@.len() <= max_hash_bits(),
        r.wf(),
    ensures
        out is Some <==> short_commit_of(domain@, msg@, r.val()) is Some,
        out matches Some(f) ==> f.wf() && Some(f.val()) == short_commit_of(
            domain@,
            msg@,
            r.val(),
        ),
{
    let d = halo2_gadgets::sinsemilla::primitives::CommitDomain::new(domain);
    let fr = <pasta_curves::Fq as ff::PrimeField>::from_repr(
        r.bytes.as_slice().try_into().unwrap(),
    ).unwrap();
    let c: Option<pasta_curves::Fp> = d.short_commit(msg.iter().copied(), &fr).into();
    c.map(|f| Fe { bytes: ff::PrimeField::to_repr(&f).to_vec() })
}

// ------------------------------------------------------------------
// Commitment values.
// ------------------------------------------------------------------

/// The blinding scalar of a commitment.
#[derive(Debug)]
pub struct CommitTrapdoor(pub Sc);

impl CommitTrapdoor {
    /// The scalar.
    pub fn value(&self) -> (r: &Sc)
        ensures
            r == &self.0,
    {
        &self.0
    }
}

/// A full commitment: a curve point.
#[derive(Debug)]
pub struct Commitment(pub Pt);

impl Commitment {
    /// The point.
    pub fn value(&self) -> (r: &Pt)
        ensures
            r == &self.0,
    {
        &self.0
    }
}

/// The x-only form of a commitment.
#[derive(Debug)]
pub struct ExtractedCommitment(pub Fe);

impl ExtractedCommitment {
    /// The x-coordinate.
    pub fn value(&self) -> (r: &Fe)
        ensures
            r == &self.0,
    {
        &self.0
    }

    /// Extracts the x-coordinate of a full commitment.
    pub fn from_commitment(cm: &Commitment) -> (r: Self)
        requires
            cm.0.wf(),
        ensures
            r.0.wf(),
            r.0.val() == pt_x_of(cm.0.enc()),
    {
        ExtractedCommitment(pt_x(&cm.0))
    }

    /// Reads an extracted commitment from canonical bytes; `None` exactly
    /// outside the canonical range.
    pub fn from_bytes(bytes: &Vec<u8>) -> (r: Option<Self>)
        requires
            bytes@.len() == 32,
        ensures
            r is Some <==> crate::bits::bits_val(crate::bits::bytes_bits(bytes@))
                < crate::field::p_modulus(),
            r matches Some(c) ==> c.0.wf() && c.0.bytes@ == bytes@,
    {
        match crate::field::fe_from_bytes(bytes) {
            Some(f) => Some(ExtractedCommitment(f)),
            None => None,
        }
    }

    /// The canonical bytes.
    pub fn to_bytes(&self) -> (r: &Vec<u8>)
        ensures
            r@ == self.0.bytes@,
    {
        &self.0.bytes
    }
}

/// A nullifier: a field element derived from a spent commitment.
#[derive(Debug)]
pub struct Nullifier(pub Fe);

impl Nullifier {
    /// The field element.
    pub fn value(&self) -> (r: &Fe)
        ensures
            r == &self.0,
    {
        &self.0
    }

    /// Reads a nullifier from canonical bytes; `None` exactly outside the
    /// canonical range.
    pub fn from_bytes(bytes: &Vec<u8>) -> (r: Option<Self>)
        requires
            bytes@.len() == 32,
        ensures
            r is Some <==> crate::bits::bits_val(crate::bits::bytes_bits(bytes@))
                < crate::field::p_modulus(),
            r matches Some(n) ==> n.0.wf() && n.0.bytes@ == bytes@,
    {
        match crate::field::fe_from_bytes(bytes) {
            Some(f) => Some(Nullifier(f)),
            None => None,
        }
    }

    /// The canonical bytes.
    pub fn to_bytes(&self) -> (r: &Vec<u8>)
        ensures
            r@ == self.0.bytes@,
    {
        &self.0.bytes
    }
}

// ------------------------------------------------------------------
// The reference commitment over declared inputs.
// ------------------------------------------------------------------

/// One declared commitment input: its name, its declared bit width, its
/// field value, and the y-coordinate where the input is a point.
#[derive(Debug)]
pub struct CommitInput {
    pub name: String,
    pub width: usize,
    pub x: Fe,
    pub y: Option<Fe>,
}

/// A commitment result: the x-coordinate for the short variant, the point
/// otherwise.
#[derive(Debug)]
pub enum CommitResult {
    X(Option<Fe>),
    Point(Option<Pt>),
}

/// The bits one input contributes: its value's bits up to its width,
/// capped at the field size, then the parity of its y-coordinate where one
/// is declared.
pub open spec fn spec_input_bits(width: nat, x: nat, y: Option<nat>) -> Seq<bool> {
    let w = if width < 255 {
        width
    } else {
        255
    };
    val_bits(x, 255).take(w as int) + match y {
        Some(yv) => seq![yv % 2 == 1],
        None => Seq::empty(),
    }
}

/// The message of a commitment: the concatenated bits of its inputs.
pub open spec fn spec_commit_msg(inputs: Seq<CommitInput>) -> Seq<bool>
    decreases inputs.len(),
{
    if inputs.len() == 0 {
        Seq::empty()
    } else {
        spec_input_bits(
            inputs[0].width as nat,
            inputs[0].x.val(),
            match inputs[0].y {
                Some(yf) => Some(yf.val()),
                None => None,
            },
        ) + spec_commit_msg(inputs.drop_first())
    }
}

/// All inputs hold canonical values.
pub open spec fn spec_inputs_wf(inputs: Seq<CommitInput>) -> bool {
    forall|i: int|
        0 <= i < inputs.len() ==> (#[trigger] inputs[i]).x.wf() && match inputs[i].y {
            Some(yf) => yf.wf(),
            None => true,
        }
}

/// The reference commitment over declared inputs: hashes the concatenated
/// input bits in the domain and blinds with the scalar; the short variant
/// returns the x-coordinate only. This is the value the in-circuit
/// commitment must reproduce.
pub fn compute_commit_value(
    is_short_commit: bool,
    commit_domain_name: &str,
    input_r: &Sc,
    inputs: &Vec<CommitInput>,
) -> (r: CommitResult)
    requires
        input_r.wf(),
        spec_inputs_wf(inputs@),
        spec_commit_msg(inputs@).len() <= max_hash_bits(),
    ensures
        is_short_commit ==> (r matches CommitResult::X(x) && (x is Some <==> short_commit_of(
            commit_domain_name@,
            spec_commit_msg(inputs@),
            input_r.val(),
        ) is Some) && (x matches Some(f) ==> f.wf() && Some(f.val()) == short_commit_of(
            commit_domain_name@,
            spec_commit_msg(inputs@),
            input_r.val(),
        ))),
        !is_short_commit ==> (r matches CommitResult::Point(p) && (p is Some <==> commit_of(
            commit_domain_name@,
            spec_commit_msg(inputs@),
            input_r.val(),
        ) is Some) && (p matches Some(pt) ==> pt.wf() && Some(pt.enc()) == commit_of(
            commit_domain_name@,
            spec_commit_msg(inputs@),
            input_r.val(),
        ))),
{
    let mut msg: Vec<bool> = Vec::new();
    let mut i: usize = 0;
    proof {
        assert(inputs@.take(0) =~= Seq::<CommitInput>::empty());
        assert(msg@ =~= spec_commit_msg(inputs@.take(0)));
    }
    while i < inputs.len()
        invariant
            i <= inputs@.len(),
            spec_inputs_wf(inputs@),
            spec_commit_msg(inputs@).len() <= max_hash_bits(),
            msg@ =~= spec_commit_msg(inputs@.take(i as int)),
        decreases inputs@.len() - i,
    {
        let inp = &inputs[i];
        let xbits = inp.x.to_bits();
        proof {
            lemma_val_bits_props(inp.x.val(), 255);
            crate::field::lemma_pow2_255_value();
            lemma_bits_val_injective(xbits@, val_bits(inp.x.val(), 255));
        }
        let w = if inp.width < 255 {
            inp.width
        } else {
            255
        };
        let piece = crate::bits::take_bits(&xbits, w);
        let mut contributed = piece;
        match &inp.y {
            Some(yf) => {
                let ybits = yf.to_bits();
                contributed.push(ybits[0]);
                proof {
                    lemma_val_bits_props(yf.val(), 255);
                    crate::field::lemma_pow2_255_value();
                    lemma_bits_val_injective(ybits@, val_bits(yf.val(), 255));
                    assert(val_bits(yf.val(), 255)[0] == (yf.val() % 2 == 1));
                }
            },
            None => {},
        }
        let msg2 = concat_bits(&msg, &contributed);
        msg = msg2;
        proof {
            let pre = inputs@.take(i as int);
            let now = inputs@.take(i + 1);
            assert(now.drop_last() =~= pre);
            assert(now.last() == inputs@[i as int]);
            lemma_commit_msg_snoc(now);
            assert(contributed@ =~= spec_input_bits(
                inputs@[i as int].width as nat,
                inputs@[i as int].x.val(),
                match inputs@[i as int].y {
                    Some(yf) => Some(yf.val()),
                    None => None,
                },
            ));
        }
        i = i + 1;
    }
    proof {
        assert(inputs@.take(inputs@.len() as int) =~= inputs@);
    }
    if is_short_commit {
        CommitResult::X(sinsemilla_short_commit(commit_domain_name, &msg, input_r))
    } else {
        CommitResult::Point(sinsemilla_commit(commit_domain_name, &msg, input_r))
    }
}

/// The message of one more input is the message so far followed by that
/// input's bits.
proof fn lemma_commit_msg_snoc(inputs: Seq<CommitInput>)
    requires
        inputs.len() > 0,
    ensures
        spec_commit_msg(inputs) == spec_commit_msg(inputs.drop_last()) + spec_input_bits(
            inputs.last().width as nat,
            inputs.last().x.val(),
            match inputs.last().y {
                Some(yf) => Some(yf.val()),
                None => None,
            },
        ),
    decreases inputs.len(),
{
    if inputs.len() == 1 {
        assert(inputs.drop_last() =~= Seq::<CommitInput>::empty());
        assert(inputs.drop_first() =~= Seq::<CommitInput>::empty());
        assert(spec_commit_msg(inputs.drop_last()) =~= Seq::<bool>::empty());
        assert(spec_commit_msg(inputs) =~= spec_input_bits(
            inputs[0].width as nat,
            inputs[0].x.val(),
            match inputs[0].y {
                Some(yf) => Some(yf.val()),
                None => None,
            },
        ));
        assert(spec_commit_msg(inputs.drop_last()) + spec_input_bits(
            inputs.last().width as nat,
            inputs.last().x.val(),
            match inputs.last().y {
                Some(yf) => Some(yf.val()),
                None => None,
            },
        ) =~= spec_commit_msg(inputs));
    } else {
        lemma_commit_msg_snoc(inputs.drop_first());
        assert(inputs.drop_first().drop_last() =~= inputs.drop_last().drop_first());
        assert(inputs.drop_first().last() == inputs.last());
        assert(spec_commit_msg(inputs) =~= spec_input_bits(
            inputs[0].width as nat,
            inputs[0].x.val(),
            match inputs[0].y {
                Some(yf) => Some(yf.val()),
                None => None,
            },
        ) + spec_commit_msg(inputs.drop_first()));
        assert(spec_commit_msg(inputs.drop_last()) =~= spec_input_bits(
            inputs[0].width as nat,
            inputs[0].x.val(),
            match inputs[0].y {
                Some(yf) => Some(yf.val()),
                None => None,
            },
        ) + spec_commit_msg(inputs.drop_last().drop_first()));
        assert(spec_commit_msg(inputs.drop_last()) + spec_input_bits(
            inputs.last().width as nat,
            inputs.last().x.val(),
            match inputs.last().y {
                Some(yf) => Some(yf.val()),
                None => None,
            },
        ) =~= spec_commit_msg(inputs));
    }
}


// ------------------------------------------------------------------
// Piece and slice composition.
// ------------------------------------------------------------------

/// The flattening of a list of slices into one bit string, in order.
pub open spec fn spec_compose(slices: Seq<Seq<bool>>) -> Seq<bool>
    decreases slices.len(),
{
    if slices.len() == 0 {
        Seq::empty()
    } else {
        slices[0] + spec_compose(slices.drop_first())
    }
}

/// The split of a bit string along declared widths; `None` exactly where
/// the widths do not sum to the string's length.
pub open spec fn spec_decompose(bits: Seq<bool>, widths: Seq<usize>) -> Option<Seq<Seq<bool>>>
    decreases widths.len(),
{
    if widths.len() == 0 {
        if bits.len() == 0 {
            Some(Seq::empty())
        } else {
            None
        }
    } else if bits.len() < widths[0] {
        None
    } else {
        match spec_decompose(bits.skip(widths[0] as int), widths.drop_first()) {
            Some(rest) => Some(seq![bits.take(widths[0] as int)] + rest),
            None => None,
        }
    }
}

/// Composition round trip: splitting a composed piece along its slices'
/// widths returns exactly the slices.
pub proof fn lemma_decompose_compose(slices: Seq<Seq<bool>>, widths: Seq<usize>)
    requires
        widths.len() == slices.len(),
        forall|i: int| 0 <= i < slices.len() ==> (#[trigger] slices[i]).len() == widths[i],
    ensures
        spec_decompose(spec_compose(slices), widths) == Some(slices),
    decreases slices.len(),
{
    if slices.len() == 0 {
        assert(spec_compose(slices) =~= Seq::<bool>::empty());
        assert(spec_decompose(spec_compose(slices), widths) == Some(Seq::<Seq<bool>>::empty()));
        assert(slices =~= Seq::<Seq<bool>>::empty());
    } else {
        let whole = spec_compose(slices);
        let w0 = widths[0] as int;
        assert(whole == slices[0] + spec_compose(slices.drop_first()));
        assert(whole.take(w0) =~= slices[0]);
        assert(whole.skip(w0) =~= spec_compose(slices.drop_first()));
        assert(forall|i: int| 0 <= i < slices.drop_first().len() ==> (#[trigger] slices.drop_first()[i]).len() == widths.drop_first()[i]);
        lemma_decompose_compose(slices.drop_first(), widths.drop_first());
        assert(seq![whole.take(w0)] + slices.drop_first() =~= slices);
    }
}

/// The value of a composition: each slice's value is weighted by two to
/// its offset, read off one slice at a time.
pub proof fn lemma_compose_val(slices: Seq<Seq<bool>>)
    requires
        slices.len() > 0,
    ensures
        bits_val(spec_compose(slices)) == bits_val(slices[0]) + pow2(slices[0].len()) * bits_val(
            spec_compose(slices.drop_first()),
        ),
{
    lemma_bits_val_concat(slices[0], spec_compose(slices.drop_first()));
}

/// Composes slices into one piece, back to front.
pub fn compose_slices(slices: &Vec<Vec<bool>>) -> (r: Vec<bool>)
    ensures
        r@ =~= spec_compose(slices@.map_values(|v: Vec<bool>| v@)),
{
    let mut out: Vec<bool> = Vec::new();
    let mut i: usize = slices.len();
    let ghost views = slices@.map_values(|v: Vec<bool>| v@);
    proof {
        assert(views.skip(views.len() as int) =~= Seq::<Seq<bool>>::empty());
        assert(out@ =~= spec_compose(views.skip(views.len() as int)));
    }
    while i > 0
        invariant
            i <= slices@.len(),
            views == slices@.map_values(|v: Vec<bool>| v@),
            out@ =~= spec_compose(views.skip(i as int)),
        decreases i,
    {
        let merged = concat_bits(&slices[i - 1], &out);
        out = merged;
        proof {
            assert(views.skip(i as int - 1).drop_first() =~= views.skip(i as int));
            assert(views.skip(i as int - 1)[0] == views[i as int - 1]);
            assert(views[i as int - 1] == slices@[i as int - 1]@);
        }
        i = i - 1;
    }
    proof {
        assert(views.skip(0) =~= views);
    }
    out
}

/// Splits a piece along declared widths; `None` exactly where the widths
/// do not sum to the piece's length.
pub fn decompose_bits(bits: &Vec<bool>, widths: &Vec<usize>) -> (r: Option<Vec<Vec<bool>>>)
    ensures
        match r {
            Some(parts) => spec_decompose(bits@, widths@) == Some(
                parts@.map_values(|v: Vec<bool>| v@),
            ),
            None => spec_decompose(bits@, widths@) is None,
        },
{
    let mut parts: Vec<Vec<bool>> = Vec::new();
    let mut offset: usize = 0;
    let mut k: usize = 0;
    proof {
        assert(bits@.skip(0) =~= bits@);
        assert(widths@.skip(0) =~= widths@);
        let o = spec_decompose(bits@, widths@);
        if o is Some {
            assert(parts@.map_values(|v: Vec<bool>| v@) + o->0 =~= o->0);
        }
    }
    while k < widths.len()
        invariant
            k <= widths@.len(),
            offset <= bits@.len(),
            parts@.len() == k,
            spec_decompose(bits@, widths@) == match spec_decompose(
                bits@.skip(offset as int),
                widths@.skip(k as int),
            ) {
                Some(rest) => Some(parts@.map_values(|v: Vec<bool>| v@) + rest),
                None => None::<Seq<Seq<bool>>>,
            },
        decreases widths@.len() - k,
    {
        let w = widths[k];
        proof {
            assert(widths@.skip(k as int)[0] == widths@[k as int]);
            assert(widths@.skip(k as int).drop_first() =~= widths@.skip(k as int + 1));
        }
        if bits.len() - offset < w {
            proof {
                assert(bits@.skip(offset as int).len() < widths@.skip(k as int)[0]);
            }
            return None;
        }
        let ghost old_parts = parts@;
        let blen = bits.len();
        let mut part: Vec<bool> = Vec::new();
        let mut j: usize = 0;
        while j < w
            invariant
                j <= w,
                blen == bits@.len(),
                offset + w <= blen,
                part@ =~= bits@.subrange(offset as int, offset + j),
            decreases w - j,
        {
            part.push(bits[offset + j]);
            j = j + 1;
        }
        proof {
            assert(part@ =~= bits@.skip(offset as int).take(w as int));
            assert(bits@.skip(offset as int).skip(w as int) =~= bits@.skip(offset + w));
        }
        parts.push(part);
        offset = offset + w;
        proof {
            let p = bits@.skip((offset - w) as int).take(w as int);
            assert(parts@.map_values(|v: Vec<bool>| v@) =~= old_parts.map_values(
                |v: Vec<bool>| v@,
            ).push(p));
            let o = spec_decompose(bits@.skip(offset as int), widths@.skip(k as int + 1));
            if o is Some {
                let rest2 = o->0;
                assert(old_parts.map_values(|v: Vec<bool>| v@) + (seq![p] + rest2)
                    =~= parts@.map_values(|v: Vec<bool>| v@) + rest2);
            }
        }
        k = k + 1;
    }
    proof {
        assert(widths@.skip(widths@.len() as int) =~= Seq::<usize>::empty());
        if offset == bits@.len() {
            assert(bits@.skip(offset as int).len() == 0);
            assert(parts@.map_values(|v: Vec<bool>| v@) + Seq::<Seq<bool>>::empty()
                =~= parts@.map_values(|v: Vec<bool>| v@));
        } else {
            assert(bits@.skip(offset as int).len() > 0);
        }
    }
    if offset == bits.len() {
        Some(parts)
    } else {
        None
    }
}

// ------------------------------------------------------------------
// Canonicity.
// ------------------------------------------------------------------

/// The low 128 bits of `2^n - T_P` for `n` at least 128: the two's
/// complement of the modulus tail.
pub const TP_COMPLEMENT_LOW: u128 = (u128::MAX - T_P) + 1;

/// The bit string of `2^n - T_P`, for the canonicity offsets.
pub fn pow2n_minus_tp(n: usize) -> (r: Vec<bool>)
    requires
        129 <= n <= 140,
    ensures
        r@.len() == n,
        bits_val(r@) == pow2(n as nat) - T_P,
{
    proof {
        crate::field::lemma_pow2_255_value();
        lemma2_to64();
        lemma_pow2_adds(64, 64);
        assert(pow2(128) == 0x100000000000000000000000000000000nat);
    }
    let low = u128_to_bits(TP_COMPLEMENT_LOW, 128);
    proof {
        vstd::bits::lemma_u64_pow2_no_overflow((n - 128) as nat);
        vstd::bits::lemma_u64_shl_is_mul(1u64, (n - 128) as u64);
        lemma_pow2_pos((n - 128) as nat);
    }
    let hv: u64 = (1u64 << ((n - 128) as u64)) - 1;
    let high = u128_to_bits(hv as u128, n - 128);
    let out = concat_bits(&low, &high);
    proof {
        lemma_bits_val_concat(low@, high@);
        lemma_pow2_adds(128, (n - 128) as nat);
        assert(pow2(128) * ((pow2((n - 128) as nat) - 1) as nat) == pow2(n as nat) - pow2(128))
            by (nonlinear_arith)
            requires
                pow2(128) * pow2((n - 128) as nat) == pow2(n as nat),
                pow2((n - 128) as nat) >= 1,
        ;
    }
    out
}

/// The canonicity witness of a full-width piece: the low bits of
/// `a + 2^130 - T_P` and the final running sum of their lookup
/// decomposition, which vanishes exactly when the piece is below the
/// modulus tail.
pub fn canon_bitshift_130(a: &Vec<bool>) -> (r: (Vec<bool>, Vec<bool>))
    requires
        a@.len() == 250,
    ensures
        bits_val(r.0@) == bits_val(a@) + pow2(130) - T_P,
        r.1@ =~= r.0@.skip(130),
        bits_val(r.1@) == 0 <==> bits_val(a@) < T_P,
{
    canon_bitshift_n(130, a)
}

/// The canonicity witness at a chosen offset: the bits of
/// `v + 2^n - T_P` and the running sum past the first `n` bits, zero
/// exactly when `v` is below the modulus tail.
pub fn canon_bitshift_n(n: usize, v: &Vec<bool>) -> (r: (Vec<bool>, Vec<bool>))
    requires
        129 <= n <= 140,
        n <= v@.len(),
    ensures
        bits_val(r.0@) == bits_val(v@) + pow2(n as nat) - T_P,
        r.1@ =~= r.0@.skip(n as int),
        bits_val(r.1@) == 0 <==> bits_val(v@) < T_P,
{
    let c = pow2n_minus_tp(n);
    let cp = pad_bits(&c, v.len());
    let prime = add_bits(v, &cp);
    let z = skip_bits(&prime, n);
    proof {
        lemma_pow2_pos(n as nat);
        lemma_bits_val_split(prime@, n as int);
        lemma_bits_val_zero(prime@.skip(n as int));
        lemma_bits_val_bound(prime@.take(n as int));
        if bits_val(prime@.skip(n as int)) == 0 {
            assert(prime@.take(n as int).len() == n as nat);
            assert(pow2(n as nat) * bits_val(prime@.skip(n as int)) == 0) by (nonlinear_arith)
                requires
                    bits_val(prime@.skip(n as int)) == 0,
            ;
            assert(bits_val(prime@) < pow2(n as nat));
        } else {
            assert(pow2(n as nat) * bits_val(prime@.skip(n as int)) >= pow2(n as nat) * 1)
                by (nonlinear_arith)
                requires
                    bits_val(prime@.skip(n as int)) >= 1,
                    pow2(n as nat) > 0,
            ;
        }
        assert(T_P < pow2(128)) by {
            lemma2_to64();
            lemma_pow2_adds(64, 64);
        }
        vstd::arithmetic::power2::lemma_pow2_strictly_increases(128, n as nat);
    }
    (prime, z)
}

/// Composes a two-slice canonicity input `a0 + 2^(a0 width) * b` and
/// produces its canonicity witness at offset `n`: 130 where both slices
/// come from one piece, 140 otherwise.
pub fn canon_bitshift_pair(n: usize, a0: &Vec<bool>, b: &Vec<bool>) -> (r: (Vec<bool>, Vec<bool>))
    requires
        129 <= n <= 140,
        a0@.len() < 64,
        n <= a0@.len() + b@.len(),
    ensures
        bits_val(r.0@) == bits_val(a0@) + pow2(a0@.len()) * bits_val(b@) + pow2(n as nat) - T_P,
        bits_val(r.1@) == 0 <==> bits_val(a0@) + pow2(a0@.len()) * bits_val(b@) < T_P,
{
    let joined = concat_bits(a0, b);
    proof {
        lemma_bits_val_concat(a0@, b@);
    }
    canon_bitshift_n(n, &joined)
}

// ------------------------------------------------------------------
// Piece names.
// ------------------------------------------------------------------

/// The position of the first slice separator in a name, or the name's
/// length where there is none.
pub open spec fn spec_sep_index(s: Seq<char>) -> int
    decreases s.len(),
{
    if s.len() == 0 {
        0
    } else if s[0] == '_' {
        0
    } else {
        1 + spec_sep_index(s.drop_first())
    }
}

/// The separator position is within the name, and marks the first
/// separator.
pub proof fn lemma_sep_index_props(s: Seq<char>)
    ensures
        0 <= spec_sep_index(s) <= s.len(),
        spec_sep_index(s) < s.len() ==> s[spec_sep_index(s)] == '_',
        forall|i: int| 0 <= i < spec_sep_index(s) ==> s[i] != '_',
    decreases s.len(),
{
    if s.len() > 0 && s[0] != '_' {
        lemma_sep_index_props(s.drop_first());
        assert forall|i: int| 0 <= i < spec_sep_index(s) implies s[i] != '_' by {
            if i > 0 {
                assert(s.drop_first()[i - 1] != '_');
            }
        }
    }
}

/// The host-piece name of a slice: the name up to its first separator.
pub open spec fn spec_extract_piece_name(s: Seq<char>) -> Seq<char> {
    s.take(spec_sep_index(s))
}

/// Whether a name names a slice: it carries a separator.
pub fn is_slice_name(name: &String) -> (r: bool)
    ensures
        r == (spec_sep_index(name@) < name@.len()),
{
    let s = name.as_str();
    let n = s.unicode_len();
    let idx = sep_index(name);
    proof {
        lemma_sep_index_props(name@);
    }
    idx < n
}

/// The position of the first separator, executably.
fn sep_index(name: &String) -> (r: usize)
    ensures
        r == spec_sep_index(name@),
{
    let s = name.as_str();
    let n = s.unicode_len();
    let mut i: usize = 0;
    while i < n
        invariant
            i <= n,
            n == name@.len(),
            s@ == name@,
            forall|j: int| 0 <= j < i ==> name@[j] != '_',
        decreases n - i,
    {
        let c = s.get_char(i);
        if c == '_' {
            proof {
                lemma_sep_index_unfolds(name@, i as int);
                lemma_sep_index_at(name@, i as int);
            }
            return i;
        }
        i = i + 1;
    }
    proof {
        lemma_sep_index_unfolds(name@, name@.len() as int);
        lemma_sep_index_props(name@);
    }
    i
}

/// Where no separator stands before `k`, the separator index is at least
/// `k`.
proof fn lemma_sep_index_unfolds(s: Seq<char>, k: int)
    requires
        0 <= k <= s.len(),
        forall|j: int| 0 <= j < k ==> s[j] != '_',
    ensures
        spec_sep_index(s) >= k,
    decreases k,
{
    lemma_sep_index_props(s);
    if k > 0 {
        assert(s[0] != '_');
        assert forall|j: int| 0 <= j < k - 1 implies s.drop_first()[j] != '_' by {
            assert(s[j + 1] != '_');
        }
        lemma_sep_index_unfolds(s.drop_first(), k - 1);
        assert(spec_sep_index(s) == 1 + spec_sep_index(s.drop_first()));
    }
}

/// Where position `k` holds a separator and none stands before it, the
/// separator index is exactly `k`.
proof fn lemma_sep_index_at(s: Seq<char>, k: int)
    requires
        0 <= k < s.len(),
        s[k] == '_',
        forall|j: int| 0 <= j < k ==> s[j] != '_',
    ensures
        spec_sep_index(s) == k,
{
    lemma_sep_index_unfolds(s, k);
    lemma_sep_index_props(s);
    if spec_sep_index(s) > k {
        assert(s[k] != '_');
    }
}

/// The host-piece name of a slice, executably.
pub fn extract_piece_name(name: &String) -> (r: String)
    ensures
        r@ == spec_extract_piece_name(name@),
{
    let idx = sep_index(name);
    let s = name.as_str();
    proof {
        lemma_sep_index_props(name@);
    }
    let sub = s.substring_char(0, idx);
    proof {
        assert(sub@ =~= name@.take(spec_sep_index(name@)));
    }
    sub.to_owned()
}

/// Whether all named slices come from one host piece.
pub fn check_if_same_pieces(pieces: &Vec<String>) -> (r: bool)
    ensures
        r == (forall|i: int|
            0 <= i < pieces@.len() ==> spec_extract_piece_name((#[trigger] pieces@[i])@)
                == spec_extract_piece_name(pieces@[0]@)),
{
    if pieces.len() <= 1 {
        return true;
    }
    let first = extract_piece_name(&pieces[0]);
    let mut i: usize = 1;
    while i < pieces.len()
        invariant
            1 <= i <= pieces@.len(),
            first@ == spec_extract_piece_name(pieces@[0]@),
            forall|j: int|
                0 <= j < i ==> spec_extract_piece_name((#[trigger] pieces@[j])@)
                    == spec_extract_piece_name(pieces@[0]@),
        decreases pieces@.len() - i,
    {
        let cur = extract_piece_name(&pieces[i]);
        if !crate::string_eq_lit(&cur, first.as_str()) {
            return false;
        }
        i = i + 1;
    }
    true
}

/// The canonicity offset for a pair of contributing slices: 130 where both
/// come from one host piece, 140 where they do not.
pub fn canon_offset_for(name1: &String, name2: &String) -> (r: usize)
    ensures
        r == 130usize <==> spec_extract_piece_name(name1@) == spec_extract_piece_name(name2@),
        r == 130usize || r == 140usize,
{
    let a = extract_piece_name(name1);
    let b = extract_piece_name(name2);
    if crate::string_eq_lit(&a, b.as_str()) {
        130
    } else {
        140
    }
}


// ------------------------------------------------------------------
// y-coordinate canonicity.
// ------------------------------------------------------------------

/// The pieces of a y-coordinate's canonicity decomposition:
/// `y = lsb + 2 k0 + 2^10 k1 + 2^250 k2 + 2^254 k3`, with `j` its low 250
/// bits.
pub struct YParts {
    pub lsb: bool,
    pub k0: Vec<bool>,
    pub k1: Vec<bool>,
    pub k2: Vec<bool>,
    pub k3: bool,
    pub j: Vec<bool>,
}

/// Decomposes a y-coordinate for its canonicity proof: the least
/// significant bit, a nine-bit piece, a 240-bit piece, a four-bit piece
/// and the top bit, with `j` the recombination of the low 250 bits.
pub fn y_decompose(y: &Fe) -> (r: YParts)
    requires
        y.wf(),
    ensures
        r.k0@.len() == 9,
        r.k1@.len() == 240,
        r.k2@.len() == 4,
        r.j@.len() == 250,
        y.val() == (if r.lsb { 1nat } else { 0nat }) + 2 * bits_val(r.k0@) + pow2(10) * bits_val(
            r.k1@,
        ) + pow2(250) * bits_val(r.k2@) + pow2(254) * (if r.k3 { 1nat } else { 0nat }),
        bits_val(r.j@) == (if r.lsb { 1nat } else { 0nat }) + 2 * bits_val(r.k0@) + pow2(10)
            * bits_val(r.k1@),
{
    let bits = y.to_bits();
    let lsb = bits[0];
    let k0 = crate::bits::take_bits(&skip_bits(&bits, 1), 9);
    let k1 = crate::bits::take_bits(&skip_bits(&bits, 10), 240);
    let k2 = crate::bits::take_bits(&skip_bits(&bits, 250), 4);
    let k3 = bits[254];
    let j = crate::bits::take_bits(&bits, 250);
    proof {
        let b = bits@;
        lemma2_to64();
        // y = j + 2^250 (k2 + 2^4 k3)
        lemma_bits_val_split(b, 250);
        let t = b.skip(250);
        lemma_bits_val_split(t, 4);
        assert(t.take(4) =~= k2@);
        assert(t.skip(4) =~= seq![b[254]]);
        assert(seq![b[254]].drop_first() =~= Seq::<bool>::empty());
        assert(bits_val(Seq::<bool>::empty()) == 0);
        assert(bits_val(seq![b[254]]) == (if b[254] { 1nat } else { 0nat }));
        lemma_pow2_adds(250, 4);
        assert(pow2(250) * (bits_val(k2@) + pow2(4) * (if k3 { 1nat } else { 0nat })) == pow2(250)
            * bits_val(k2@) + pow2(254) * (if k3 { 1nat } else { 0nat })) by (nonlinear_arith)
            requires
                pow2(250) * pow2(4) == pow2(254),
        ;
        // j = lsb + 2 k0 + 2^10 k1
        let jv = b.take(250);
        assert(jv =~= j@);
        lemma_bits_val_split(jv, 1);
        assert(jv.take(1) =~= seq![b[0]]);
        assert(seq![b[0]].drop_first() =~= Seq::<bool>::empty());
        assert(bits_val(Seq::<bool>::empty()) == 0);
        assert(bits_val(seq![b[0]]) == (if lsb { 1nat } else { 0nat }));
        let j1 = jv.skip(1);
        lemma_bits_val_split(j1, 9);
        assert(j1.take(9) =~= k0@);
        assert(j1.skip(9) =~= k1@);
        lemma_pow2_adds(1, 9);
        assert(2 * (bits_val(k0@) + pow2(9) * bits_val(k1@)) == 2 * bits_val(k0@) + pow2(10)
            * bits_val(k1@)) by (nonlinear_arith)
            requires
                2 * pow2(9) == pow2(10),
        ;
    }
    YParts { lsb, k0, k1, k2, k3, j }
}


// ------------------------------------------------------------------
// Composition rules from gate layouts.
// ------------------------------------------------------------------

/// One slice's place inside its host piece: name, host name, bit offset,
/// bit width and role.
pub struct SliceRule {
    pub name: String,
    pub host: String,
    pub offset: usize,
    pub width: usize,
    pub celltype: crate::schema::CellType,
}

/// The bit offset reached after the first `k` cells of a gate: each cell
/// after the head advances the offset by its width while the offset is
/// still inside the head cell's width.
pub open spec fn spec_offset_upto(cells: Seq<crate::schema::CellInfo>, k: int) -> int
    decreases k,
{
    if k <= 1 {
        0
    } else {
        let prev = spec_offset_upto(cells, k - 1);
        if prev < cells[0].width {
            prev + cells[k - 1].width
        } else {
            prev
        }
    }
}

/// Builds the composition rules of one gate: each cell after the head is
/// a slice of the head at its cumulative offset. Succeeds exactly when
/// the slice widths sum to the head cell's declared width — the gapless
/// decomposition the schema demands.
pub fn gate_slice_rules(gate: &crate::schema::GateInfo) -> (r: Result<
    Vec<SliceRule>,
    SynthesisError,
>)
    requires
        gate.cells@.len() >= 1,
    ensures
        (r is Ok) <==> (spec_offset_upto(gate.cells@, gate.cells@.len() as int)
            == gate.cells@[0].width),
        r matches Ok(rules) ==> {
            &&& rules@.len() == gate.cells@.len() - 1
            &&& forall|i: int|
                0 <= i < rules@.len() ==> {
                    let c = gate.cells@[i + 1];
                    &&& (#[trigger] rules@[i]).name == c.name
                    &&& rules@[i].host == gate.cells@[0].name
                    &&& rules@[i].width == c.width
                    &&& rules@[i].celltype == c.celltype
                    &&& rules@[i].offset == spec_offset_upto(gate.cells@, i + 1)
                }
        },
{
    let host_width = gate.cells[0].width;
    let mut rules: Vec<SliceRule> = Vec::new();
    let mut offset: usize = 0;
    let mut k: usize = 1;
    while k < gate.cells.len()
        invariant
            1 <= k <= gate.cells@.len(),
            rules@.len() == k - 1,
            host_width == gate.cells@[0].width,
            offset == spec_offset_upto(gate.cells@, k as int),
            forall|i: int|
                0 <= i < rules@.len() ==> {
                    let c = gate.cells@[i + 1];
                    &&& (#[trigger] rules@[i]).name == c.name
                    &&& rules@[i].host == gate.cells@[0].name
                    &&& rules@[i].width == c.width
                    &&& rules@[i].celltype == c.celltype
                    &&& rules@[i].offset == spec_offset_upto(gate.cells@, i + 1)
                },
        decreases gate.cells@.len() - k,
    {
        let cell = &gate.cells[k];
        rules.push(SliceRule {
            name: cell.name.clone(),
            host: gate.cells[0].name.clone(),
            offset,
            width: cell.width,
            celltype: cell.celltype,
        });
        if offset < host_width {
            offset = match offset.checked_add(cell.width) {
                Some(o) => o,
                None => {
                    proof {
                        lemma_offset_upto_monotone(gate.cells@, k as int + 1,
                            gate.cells@.len() as int);
                        assert(spec_offset_upto(gate.cells@, k as int + 1) > usize::MAX);
                    }
                    return Err(SynthesisError::Synthesis);
                },
            };
        }
        k = k + 1;
    }
    if offset == host_width {
        Ok(rules)
    } else {
        Err(SynthesisError::Synthesis)
    }
}

/// The offset never shrinks as more cells are taken in.
proof fn lemma_offset_upto_monotone(cells: Seq<crate::schema::CellInfo>, k: int, m: int)
    requires
        1 <= k <= m <= cells.len(),
    ensures
        spec_offset_upto(cells, m) >= spec_offset_upto(cells, k),
    decreases m - k,
{
    if k < m {
        lemma_offset_upto_monotone(cells, k + 1, m);
    }
}


// ------------------------------------------------------------------
// Deriving a commitment from raw chunks, values and coordinates.
// ------------------------------------------------------------------

/// The bits of a list of 32-byte chunks, 256 bits each.
pub open spec fn spec_chunks_bits(s: Seq<Seq<u8>>) -> Seq<bool>
    decreases s.len(),
{
    if s.len() == 0 {
        Seq::empty()
    } else {
        crate::bits::bytes_bits(s[0]) + spec_chunks_bits(s.drop_first())
    }
}

/// The bits of a list of values, 64 two's-complement bits each.
pub open spec fn spec_values_bits(s: Seq<crate::value::ValueType>) -> Seq<bool>
    decreases s.len(),
{
    if s.len() == 0 {
        Seq::empty()
    } else {
        val_bits(crate::value::spec_twos_complement(s[0].0), 64) + spec_values_bits(s.drop_first())
    }
}

/// The bits of a list of field coordinates, 255 bits each.
pub open spec fn spec_points_bits(s: Seq<Fe>) -> Seq<bool>
    decreases s.len(),
{
    if s.len() == 0 {
        Seq::empty()
    } else {
        val_bits(s[0].val(), 255) + spec_points_bits(s.drop_first())
    }
}

/// The message a derived commitment hashes: every chunk's bits, then every
/// value's bits, then every coordinate's bits.
pub open spec fn spec_derive_msg(
    chunks: Seq<Seq<u8>>,
    values: Seq<crate::value::ValueType>,
    points: Seq<Fe>,
) -> Seq<bool> {
    spec_chunks_bits(chunks) + spec_values_bits(values) + spec_points_bits(points)
}

impl Commitment {
    /// Derives a commitment over raw 32-byte chunks, transaction values and
    /// field coordinates, blinded by the trapdoor; `None` where the
    /// commitment lands on the identity.
    pub fn derive(
        domain: &str,
        chunks: &Vec<Vec<u8>>,
        values: &Vec<crate::value::ValueType>,
        points: &Vec<Fe>,
        rcm: &CommitTrapdoor,
    ) -> (r: Option<Commitment>)
        requires
            rcm.0.wf(),
            forall|i: int| 0 <= i < chunks@.len() ==> (#[trigger] chunks@[i])@.len() == 32,
            forall|i: int| 0 <= i < points@.len() ==> (#[trigger] points@[i]).wf(),
            spec_derive_msg(
                chunks@.map_values(|c: Vec<u8>| c@),
                values@,
                points@,
            ).len() <= max_hash_bits(),
        ensures
            ({
                let msg = spec_derive_msg(chunks@.map_values(|c: Vec<u8>| c@), values@, points@);
                &&& (r is Some <==> commit_of(domain@, msg, rcm.0.val()) is Some)
                &&& (r matches Some(cm) ==> cm.0.wf() && Some(cm.0.enc()) == commit_of(
                    domain@,
                    msg,
                    rcm.0.val(),
                ))
            }),
    {
        let ghost cviews = chunks@.map_values(|c: Vec<u8>| c@);
        let mut msg: Vec<bool> = Vec::new();
        proof {
            assert(points@.skip(points@.len() as int) =~= Seq::<Fe>::empty());
            assert(msg@ =~= spec_points_bits(points@.skip(points@.len() as int)));
        }
        let mut i: usize = points.len();
        while i > 0
            invariant
                i <= points@.len(),
                forall|j: int| 0 <= j < points@.len() ==> (#[trigger] points@[j]).wf(),
                msg@ =~= spec_points_bits(points@.skip(i as int)),
            decreases i,
        {
            let fbits = points[i - 1].to_bits();
            proof {
                lemma_val_bits_props(points@[i as int - 1].val(), 255);
                crate::field::lemma_pow2_255_value();
                lemma_bits_val_injective(fbits@, val_bits(points@[i as int - 1].val(), 255));
                assert(points@.skip(i as int - 1).drop_first() =~= points@.skip(i as int));
            }
            msg = concat_bits(&fbits, &msg);
            i = i - 1;
        }
        proof {
            assert(points@.skip(0) =~= points@);
            assert(values@.skip(values@.len() as int) =~= Seq::<crate::value::ValueType>::empty());
            assert(spec_values_bits(values@.skip(values@.len() as int)) =~= Seq::<bool>::empty());
            assert(msg@ =~= spec_values_bits(values@.skip(values@.len() as int)) + spec_points_bits(
                points@,
            ));
        }
        let mut j: usize = values.len();
        while j > 0
            invariant
                j <= values@.len(),
                msg@ =~= spec_values_bits(values@.skip(j as int)) + spec_points_bits(points@),
            decreases j,
        {
            let vbits = values[j - 1].to_le_bits();
            proof {
                lemma_val_bits_props(crate::value::spec_twos_complement(values@[j as int - 1].0),
                    64);
                vstd::arithmetic::power2::lemma2_to64();
                lemma_bits_val_injective(vbits@, val_bits(
                    crate::value::spec_twos_complement(values@[j as int - 1].0), 64));
                assert(values@.skip(j as int - 1).drop_first() =~= values@.skip(j as int));
            }
            msg = concat_bits(&vbits, &msg);
            proof {
                assert(msg@ =~= (vbits@ + spec_values_bits(values@.skip(j as int)))
                    + spec_points_bits(points@));
            }
            j = j - 1;
        }
        proof {
            assert(values@.skip(0) =~= values@);
            assert(cviews.skip(cviews.len() as int) =~= Seq::<Seq<u8>>::empty());
            assert(spec_chunks_bits(cviews.skip(cviews.len() as int)) =~= Seq::<bool>::empty());
            assert(msg@ =~= spec_chunks_bits(cviews.skip(cviews.len() as int)) + (spec_values_bits(
                values@,
            ) + spec_points_bits(points@)));
        }
        let mut k: usize = chunks.len();
        while k > 0
            invariant
                k <= chunks@.len(),
                cviews == chunks@.map_values(|c: Vec<u8>| c@),
                forall|m: int| 0 <= m < chunks@.len() ==> (#[trigger] chunks@[m])@.len() == 32,
                msg@ =~= spec_chunks_bits(cviews.skip(k as int)) + (spec_values_bits(values@)
                    + spec_points_bits(points@)),
            decreases k,
        {
            proof {
                crate::bits::lemma_bytes_bits_len(chunks@[k as int - 1]@);
            }
            let cbits = crate::bits::bytes_to_bits(&chunks[k - 1], 256);
            proof {
                assert(cbits@ =~= crate::bits::bytes_bits(chunks@[k as int - 1]@)) by {
                    assert(crate::bits::bytes_bits(chunks@[k as int - 1]@).take(256)
                        =~= crate::bits::bytes_bits(chunks@[k as int - 1]@));
                }
                assert(cviews.skip(k as int - 1).drop_first() =~= cviews.skip(k as int));
                assert(cviews[k as int - 1] == chunks@[k as int - 1]@);
            }
            msg = concat_bits(&cbits, &msg);
            proof {
                assert(msg@ =~= (cbits@ + spec_chunks_bits(cviews.skip(k as int)))
                    + (spec_values_bits(values@) + spec_points_bits(points@)));
            }
            k = k - 1;
        }
        proof {
            assert(cviews.skip(0) =~= cviews);
            assert(msg@ =~= spec_derive_msg(cviews, values@, points@));
        }
        match sinsemilla_commit(domain, &msg, &rcm.0) {
            Some(p) => Some(Commitment(p)),
            None => None,
        }
    }
}


/// Witnesses an x-with-parity input as a point: the x-coordinate is given
/// and the y-coordinate is reconstructed with the declared parity; `None`
/// exactly where no point has that x-coordinate.
pub fn witness_y_input(x: &Fe, y_lsb: &Fe) -> (r: Option<Pt>)
    requires
        x.wf(),
        y_lsb.wf(),
    ensures
        r is Some <==> crate::field::x_on_curve(x.bytes@),
        r matches Some(p) ==> p.wf() && p.enc() == crate::field::pt_of_x_parity(
            x.bytes@,
            y_lsb.val() % 2 == 1,
        ),
{
    let odd = crate::field::fe_is_odd(y_lsb);
    crate::field::pt_from_x_parity(x, odd)
}


// ------------------------------------------------------------------
// The assignment protocol of the commitment gates.
// ------------------------------------------------------------------

/// Two to the `k`, as a field element.
pub fn fe_pow2(k: usize) -> (r: Fe)
    ensures
        r.wf(),
        r.val() == pow2(k as nat) % p_modulus(),
{
    let mut acc = fe_from_u64(1);
    let mut i: usize = 0;
    proof {
        lemma2_to64();
        vstd::arithmetic::div_mod::lemma_small_mod(1, p_modulus());
    }
    while i < k
        invariant
            i <= k,
            acc.wf(),
            acc.val() == pow2(i as nat) % p_modulus(),
        decreases k - i,
    {
        let doubled = fe_add(&acc, &acc);
        proof {
            vstd::arithmetic::div_mod::lemma_add_mod_noop(
                pow2(i as nat) as int,
                pow2(i as nat) as int,
                p_modulus() as int,
            );
            lemma_pow2_adds(i as nat, 1);
            lemma2_to64();
        }
        acc = doubled;
        i = i + 1;
    }
    acc
}

/// Whether a rule's cell contributes to its piece's decomposition sum.
pub open spec fn spec_rule_contributes(celltype: crate::schema::CellType) -> bool {
    ||| celltype == crate::schema::CellType::Piece
    ||| celltype == crate::schema::CellType::Slice
    ||| celltype == crate::schema::CellType::TopSlice
    ||| celltype == crate::schema::CellType::CanonicityCheckSlice
}

/// The field value of a recomposed piece from rule `k` on: each
/// contributing slice's bound value weighs two to its offset, mod the
/// field modulus; `None` where a contributing slice is unbound.
pub open spec fn spec_piece_value(values: &crate::gates::CellValues, rules: Seq<SliceRule>, k: int) -> Option<nat>
    decreases rules.len() - k,
{
    if k < 0 || k >= rules.len() {
        Some(0)
    } else {
        let rest = spec_piece_value(values, rules, k + 1);
        if !spec_rule_contributes(rules[k].celltype) {
            rest
        } else {
            match (values.spec_get(rules[k].name@), rest) {
                (Some(f), Some(acc)) => Some(
                    ((((((f.val() * pow2(rules[k].offset as nat)) as int) % (
                    p_modulus() as int)) as nat + acc) as int) % (p_modulus() as int)) as nat,
                ),
                _ => None,
            }
        }
    }
}

/// Recomposes a piece from its slices' bound values: the sum of each
/// contributing slice's value times two to its offset, in the field. An
/// error marks an unbound slice.
pub fn compose_piece_value(values: &crate::gates::CellValues, rules: &Vec<SliceRule>) -> (r:
    Result<Fe, SynthesisError>)
    requires
        values.wf(),
    ensures
        r matches Ok(f) ==> f.wf() && Some(f.val()) == spec_piece_value(values, rules@, 0),
        r is Err <==> spec_piece_value(values, rules@, 0) is None,
{
    let mut acc = fe_from_u64(0);
    let mut i: usize = rules.len();
    proof {
        vstd::arithmetic::div_mod::lemma_small_mod(0, p_modulus());
    }
    while i > 0
        invariant
            i <= rules@.len(),
            values.wf(),
            acc.wf(),
            Some(acc.val()) == spec_piece_value(values, rules@, i as int),
        decreases i,
    {
        let rule = &rules[i - 1];
        let contributes = matches!(
            rule.celltype,
            crate::schema::CellType::Piece
                | crate::schema::CellType::Slice
                | crate::schema::CellType::TopSlice
                | crate::schema::CellType::CanonicityCheckSlice
        );
        if contributes {
            let f = match values.get(&rule.name) {
                Some(f) => f,
                None => {
                    proof {
                        lemma_piece_value_none(values, rules@, 0, i as int - 1);
                    }
                    return Err(SynthesisError::Synthesis);
                },
            };
            let term = fe_mul(&f, &fe_pow2(rule.offset));
            proof {
                vstd::arithmetic::div_mod::lemma_mul_mod_noop_right(
                    f.val() as int,
                    pow2(rule.offset as nat) as int,
                    p_modulus() as int,
                );
            }
            acc = fe_add(&term, &acc);
        }
        i = i - 1;
    }
    Ok(acc)
}

/// An unbound non-pad slice at `j` starves the whole recomposition from
/// any earlier point.
proof fn lemma_piece_value_none(
    values: &crate::gates::CellValues,
    rules: Seq<SliceRule>,
    k: int,
    j: int,
)
    requires
        0 <= k <= j < rules.len(),
        spec_rule_contributes(rules[j].celltype),
        values.spec_get(rules[j].name@) is None,
    ensures
        spec_piece_value(values, rules, k) is None,
    decreases j - k,
{
    if k < j {
        lemma_piece_value_none(values, rules, k + 1, j);
    }
}


/// One cell assignment of the commitment sub-circuit: which value the
/// named cell of the named gate receives.
pub struct CellAssign {
    pub gate: String,
    pub cell: String,
    pub value: Fe,
}

/// The slice rules of a gate, as values: each trailing cell at its
/// cumulative offset.
pub open spec fn spec_gate_rules(cells: Seq<crate::schema::CellInfo>, k: int) -> Seq<SliceRule>
    decreases cells.len() - k,
{
    if k < 1 || k >= cells.len() {
        Seq::empty()
    } else {
        seq![
            SliceRule {
                name: cells[k].name,
                host: cells[0].name,
                offset: spec_offset_upto(cells, k) as usize,
                width: cells[k].width,
                celltype: cells[k].celltype,
            },
        ] + spec_gate_rules(cells, k + 1)
    }
}

/// Whether a trailing cell of a gate receives its own assignment: pad
/// slices never do, and a y-slice only rides along beside an input head.
pub open spec fn spec_cell_assigned(c: crate::schema::CellInfo) -> bool {
    c.celltype != crate::schema::CellType::PadSlice && c.celltype
        != crate::schema::CellType::YSlice
}

/// The number of assigned trailing cells before position `j`.
pub open spec fn spec_assign_count(cells: Seq<crate::schema::CellInfo>, j: int) -> int
    decreases j,
{
    if j <= 1 {
        0
    } else {
        spec_assign_count(cells, j - 1) + if spec_cell_assigned(cells[j - 1]) {
            1int
        } else {
            0int
        }
    }
}

/// The value the head cell of a gate receives: its own binding for an
/// input head, the recomposition of its slices for a piece head.
pub open spec fn spec_head_value(
    gate: &crate::schema::GateInfo,
    values: &crate::gates::CellValues,
) -> Option<nat> {
    let head = gate.cells@[0];
    if head.celltype == crate::schema::CellType::Input || head.celltype
        == crate::schema::CellType::YInput {
        match values.spec_get(head.name@) {
            Some(f) => Some(f.val()),
            None => None,
        }
    } else {
        spec_piece_value(values, spec_gate_rules(gate.cells@, 1), 0)
    }
}

/// Whether a gate's cells can all be assigned: the slice widths are
/// gapless, the head has a value, a y-slice stands only beside an input
/// head, no cell is a public-input cell, and every assigned cell is bound.
pub open spec fn spec_gate_assignable(
    gate: &crate::schema::GateInfo,
    values: &crate::gates::CellValues,
) -> bool {
    &&& spec_offset_upto(gate.cells@, gate.cells@.len() as int) == gate.cells@[0].width
    &&& spec_head_value(gate, values) is Some
    &&& forall|j: int|
        1 <= j < gate.cells@.len() ==> {
            let c = #[trigger] gate.cells@[j];
            &&& (c.celltype == crate::schema::CellType::YSlice ==> (gate.cells@[0].celltype
                == crate::schema::CellType::Input || gate.cells@[0].celltype
                == crate::schema::CellType::YInput))
            &&& c.celltype != crate::schema::CellType::Instance
            &&& (spec_cell_assigned(c) ==> values.spec_get(c.name@) is Some)
        }
}


/// What a gate's assignment list means: one entry per assigned cell in
/// declaration order; the head carries its input binding or its slices'
/// recomposition, and every other assigned cell carries its named binding.
pub open spec fn spec_gate_assigns_ok(
    gate: &crate::schema::GateInfo,
    values: &crate::gates::CellValues,
    a: Seq<CellAssign>,
) -> bool {
    &&& a.len() == 1 + spec_assign_count(gate.cells@, gate.cells@.len() as int)
    &&& a[0].gate@ == gate.name@
    &&& a[0].cell@ == gate.cells@[0].name@
    &&& Some(a[0].value.val()) == spec_head_value(gate, values)
    &&& forall|j: int|
        1 <= j < gate.cells@.len() && spec_cell_assigned(#[trigger] gate.cells@[j]) ==> {
            let idx = 1 + spec_assign_count(gate.cells@, j);
            &&& a[idx].gate@ == gate.name@
            &&& a[idx].cell@ == gate.cells@[j].name@
            &&& (values.spec_get(gate.cells@[j].name@) matches Some(f) && a[idx].value.bytes@
                == f.bytes@)
        }
}

/// Assigns every cell of one commitment gate: the head takes its input
/// binding or its slices' recomposition, and every other assigned cell
/// takes its named binding. Fails exactly on a layout that is not
/// assignable.
#[verifier::rlimit(60)]
pub fn gate_assignments(
    gate: &crate::schema::GateInfo,
    values: &crate::gates::CellValues,
) -> (r: Result<Vec<CellAssign>, SynthesisError>)
    requires
        gate.cells@.len() >= 1,
        values.wf(),
    ensures
        r is Ok <==> spec_gate_assignable(gate, values),
        r matches Ok(a) ==> spec_gate_assigns_ok(gate, values, a@),
{
    let rules = match gate_slice_rules(gate) {
        Ok(rules) => rules,
        Err(e) => {
            proof {
                lemma_offset_upto_monotone(gate.cells@, 1, gate.cells@.len() as int);
            }
            return Err(e);
        },
    };
    proof {
        lemma_gate_rules_match(gate.cells@, 1, rules@);
    }
    let head_is_input = crate::schema::CellType::is_input_cell(gate.cells[0].celltype);
    let head_value = if head_is_input {
        match values.get(&gate.cells[0].name) {
            Some(f) => f,
            None => {
                return Err(SynthesisError::Synthesis);
            },
        }
    } else {
        match compose_piece_value(values, &rules) {
            Ok(f) => f,
            Err(e) => {
                return Err(e);
            },
        }
    };
    let mut out: Vec<CellAssign> = Vec::new();
    out.push(CellAssign {
        gate: gate.name.clone(),
        cell: gate.cells[0].name.clone(),
        value: head_value,
    });
    let mut j: usize = 1;
    while j < gate.cells.len()
        invariant
            1 <= j <= gate.cells@.len(),
            values.wf(),
            head_is_input == (gate.cells@[0].celltype == crate::schema::CellType::Input
                || gate.cells@[0].celltype == crate::schema::CellType::YInput),
            out@.len() == 1 + spec_assign_count(gate.cells@, j as int),
            spec_assign_count(gate.cells@, j as int) >= 0,
            out@[0].gate@ == gate.name@,
            out@[0].cell@ == gate.cells@[0].name@,
            Some(out@[0].value.val()) == spec_head_value(gate, values),
            forall|m: int|
                1 <= m < j && spec_cell_assigned(#[trigger] gate.cells@[m]) ==> {
                    let idx = 1 + spec_assign_count(gate.cells@, m);
                    &&& out@[idx].gate@ == gate.name@
                    &&& out@[idx].cell@ == gate.cells@[m].name@
                    &&& (values.spec_get(gate.cells@[m].name@) matches Some(f)
                        && out@[idx].value.bytes@ == f.bytes@)
                },
            forall|m: int|
                1 <= m < j ==> {
                    let c = #[trigger] gate.cells@[m];
                    &&& (c.celltype == crate::schema::CellType::YSlice ==> (gate.cells@[0].celltype
                        == crate::schema::CellType::Input || gate.cells@[0].celltype
                        == crate::schema::CellType::YInput))
                    &&& c.celltype != crate::schema::CellType::Instance
                    &&& (spec_cell_assigned(c) ==> values.spec_get(c.name@) is Some)
                },
        decreases gate.cells@.len() - j,
    {
        let cell = &gate.cells[j];
        let ghost pre_out = out@;
        proof {
            assert(spec_assign_count(gate.cells@, j as int + 1) == spec_assign_count(
                gate.cells@,
                j as int,
            ) + if spec_cell_assigned(gate.cells@[j as int]) {
                1int
            } else {
                0int
            });
        }
        match cell.celltype {
            crate::schema::CellType::PadSlice => {
                proof {
                    assert(!spec_cell_assigned(gate.cells@[j as int]));
                }
            },
            crate::schema::CellType::YSlice => {
                if !head_is_input {
                    proof {
                        assert(gate.cells@[j as int].celltype == crate::schema::CellType::YSlice
                            && gate.cells@[0].celltype != crate::schema::CellType::Input
                            && gate.cells@[0].celltype != crate::schema::CellType::YInput);
                    }
                    return Err(SynthesisError::Synthesis);
                }
                proof {
                    assert(!spec_cell_assigned(gate.cells@[j as int]));
                }
            },
            crate::schema::CellType::Instance => {
                proof {
                    assert(gate.cells@[j as int].celltype == crate::schema::CellType::Instance);
                }
                return Err(SynthesisError::Synthesis);
            },
            _ => {
                let f = match values.get(&cell.name) {
                    Some(f) => f,
                    None => {
                        proof {
                            assert(spec_cell_assigned(gate.cells@[j as int]));
                            assert(values.spec_get(gate.cells@[j as int].name@) is None);
                        }
                        return Err(SynthesisError::Synthesis);
                    },
                };
                out.push(CellAssign {
                    gate: gate.name.clone(),
                    cell: cell.name.clone(),
                    value: f,
                });
                proof {
                    assert(spec_cell_assigned(gate.cells@[j as int]));
                    assert(out@.len() == pre_out.len() + 1);
                    assert(forall|i: int| 0 <= i < pre_out.len() ==> out@[i] == pre_out[i]);
                    assert(out@[pre_out.len() as int].cell@ == gate.cells@[j as int].name@);
                    assert forall|m: int|
                        1 <= m < j + 1 && spec_cell_assigned(#[trigger] gate.cells@[m]) implies {
                        let idx = 1 + spec_assign_count(gate.cells@, m);
                        &&& out@[idx].gate@ == gate.name@
                        &&& out@[idx].cell@ == gate.cells@[m].name@
                        &&& (values.spec_get(gate.cells@[m].name@) matches Some(w)
                            && out@[idx].value.bytes@ == w.bytes@)
                    } by {
                        if m < j {
                            assert(spec_assign_count(gate.cells@, m + 1) == spec_assign_count(
                                gate.cells@,
                                m,
                            ) + 1);
                            lemma_assign_count_mono(gate.cells@, m + 1, j as int);
                            lemma_assign_count_nonneg(gate.cells@, m);
                            let idx = 1 + spec_assign_count(gate.cells@, m);
                            assert(0 <= idx < pre_out.len());
                            assert(pre_out[idx].gate@ == gate.name@);
                            assert(pre_out[idx].cell@ == gate.cells@[m].name@);
                            assert(values.spec_get(gate.cells@[m].name@) matches Some(w)
                                && pre_out[idx].value.bytes@ == w.bytes@);
                            assert(out@[idx] == pre_out[idx]);
                        } else {
                            assert(1 + spec_assign_count(gate.cells@, m) == pre_out.len());
                        }
                    }
                }
            },
        }
        j = j + 1;
    }
    Ok(out)
}


/// The assigned-cell count never shrinks, and an assigned cell at `m`
/// raises every later count past its own index.
proof fn lemma_assign_count_mono(cells: Seq<crate::schema::CellInfo>, a: int, b: int)
    requires
        1 <= a <= b,
    ensures
        spec_assign_count(cells, a) <= spec_assign_count(cells, b),
    decreases b - a,
{
    if a < b {
        lemma_assign_count_mono(cells, a, b - 1);
    }
}

/// The assigned-cell count is never negative.
proof fn lemma_assign_count_nonneg(cells: Seq<crate::schema::CellInfo>, j: int)
    ensures
        spec_assign_count(cells, j) >= 0,
    decreases j,
{
    if j > 1 {
        lemma_assign_count_nonneg(cells, j - 1);
    }
}

/// The rules the builder returns are those of the layout, as values.
proof fn lemma_gate_rules_match(
    cells: Seq<crate::schema::CellInfo>,
    k: int,
    rules: Seq<SliceRule>,
)
    requires
        1 <= k <= cells.len(),
        rules.len() == cells.len() - k,
        forall|i: int|
            0 <= i < rules.len() ==> {
                let c = cells[i + k];
                &&& (#[trigger] rules[i]).name == c.name
                &&& rules[i].host == cells[0].name
                &&& rules[i].width == c.width
                &&& rules[i].celltype == c.celltype
                &&& rules[i].offset == spec_offset_upto(cells, i + k)
            },
    ensures
        rules =~= spec_gate_rules(cells, k),
    decreases cells.len() - k,
{
    if k < cells.len() {
        assert forall|i: int| 0 <= i < rules.drop_first().len() implies {
            let c = cells[i + k + 1];
            &&& (#[trigger] rules.drop_first()[i]).name == c.name
            &&& rules.drop_first()[i].host == cells[0].name
            &&& rules.drop_first()[i].width == c.width
            &&& rules.drop_first()[i].celltype == c.celltype
            &&& rules.drop_first()[i].offset == spec_offset_upto(cells, i + k + 1)
        } by {
            assert(rules.drop_first()[i] == rules[i + 1]);
        }
        lemma_gate_rules_match(cells, k + 1, rules.drop_first());
        assert(rules =~= seq![rules[0]] + rules.drop_first());
    }
}


/// The commitment sub-circuit's cell assignments, gate by gate in
/// declaration order. Fails exactly where some gate is not assignable:
/// a width mismatch or a missing companion cell is caught here, at
/// composition time.
pub fn commit_assignments(
    gates: &Vec<crate::schema::GateInfo>,
    values: &crate::gates::CellValues,
) -> (r: Result<Vec<Vec<CellAssign>>, SynthesisError>)
    requires
        values.wf(),
        forall|i: int| 0 <= i < gates@.len() ==> (#[trigger] gates@[i]).cells@.len() >= 1,
    ensures
        r is Ok <==> (forall|i: int|
            0 <= i < gates@.len() ==> spec_gate_assignable(&(#[trigger] gates@[i]), values)),
        r matches Ok(a) ==> a@.len() == gates@.len() && forall|i: int|
            0 <= i < gates@.len() ==> spec_gate_assigns_ok(
                &gates@[i],
                values,
                (#[trigger] a@[i])@,
            ),
{
    let mut out: Vec<Vec<CellAssign>> = Vec::new();
    let mut i: usize = 0;
    while i < gates.len()
        invariant
            i <= gates@.len(),
            values.wf(),
            forall|k: int| 0 <= k < gates@.len() ==> (#[trigger] gates@[k]).cells@.len() >= 1,
            out@.len() == i,
            forall|k: int| 0 <= k < i ==> spec_gate_assignable(&(#[trigger] gates@[k]), values),
            forall|k: int|
                0 <= k < i ==> spec_gate_assigns_ok(&gates@[k], values, (#[trigger] out@[k])@),
        decreases gates@.len() - i,
    {
        match gate_assignments(&gates[i], values) {
            Ok(a) => {
                out.push(a);
            },
            Err(e) => {
                return Err(e);
            },
        }
        i = i + 1;
    }
    Ok(out)
}

} // verus!
