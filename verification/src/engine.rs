//! The operand engine.
//!
//! An algorithm chain is evaluated against a named operand environment.
//! Every step resolves its operands by name, dispatches on the operator and
//! the operand tags, and folds its result into the running value of the
//! chain. Unknown witness values flow through arithmetic as unknowns; any
//! tag mismatch is a fatal synthesis error.

use vstd::prelude::*;

use crate::domains::{DomainBaseField, DomainFullWidth, DomainShort};
use crate::field::{
    Fe, Pt, Sc, fe_add, fe_mul, fe_to_scalar, fe_from_u64, p_modulus, q_modulus, poseidon2_of,
    poseidon_hash2, pt_add, pt_add_of, pt_mul, pt_mul_of, sc_neg,
    lemma_fe_eq_iff_val_eq,
};
use crate::registry::Registry;
use crate::schema::{Algo, AlgoItem, ChainItem};
use crate::string_eq_lit;

verus! {

/// The one failure of synthesis: a configuration or witness-shape defect.
/// It is fatal; nothing retries.
#[derive(Copy, Clone, Debug, Eq, PartialEq, Structural)]
pub enum SynthesisError {
    Synthesis,
}

/// A runtime operand: a typed value, or a fixed-base descriptor. A `None`
/// inside a value variant is an unknown witness, which arithmetic must
/// pass through without erroring.
#[derive(Debug)]
pub enum Operand {
    Field(Option<Fe>),
    Point(Option<Pt>),
    NIPoint(Option<Pt>),
    Scalar(Option<Sc>),
    MagnitudeSign(Option<(Fe, Fe)>),
    Cell(Option<Fe>),
    FullField(DomainFullWidth),
    BaseField(DomainBaseField),
    ShortField(DomainShort),
}

/// The mathematical reading of an operand: field values as integers,
/// points as encodings, descriptors as their domain names.
pub enum OperandV {
    Field(Option<nat>),
    Point(Option<Seq<u8>>),
    NIPoint(Option<Seq<u8>>),
    Scalar(Option<nat>),
    MagnitudeSign(Option<(nat, nat)>),
    Cell(Option<nat>),
    FullField(Seq<char>),
    BaseField(Seq<char>),
    ShortField(Seq<char>),
}

impl Operand {
    /// The operand's mathematical reading.
    pub open spec fn v(&self) -> OperandV {
        match self {
            Operand::Field(x) => OperandV::Field(match x {
                Some(f) => Some(f.val()),
                None => None,
            }),
            Operand::Point(x) => OperandV::Point(match x {
                Some(p) => Some(p.enc()),
                None => None,
            }),
            Operand::NIPoint(x) => OperandV::NIPoint(match x {
                Some(p) => Some(p.enc()),
                None => None,
            }),
            Operand::Scalar(x) => OperandV::Scalar(match x {
                Some(s) => Some(s.val()),
                None => None,
            }),
            Operand::MagnitudeSign(x) => OperandV::MagnitudeSign(match x {
                Some(ms) => Some((ms.0.val(), ms.1.val())),
                None => None,
            }),
            Operand::Cell(x) => OperandV::Cell(match x {
                Some(f) => Some(f.val()),
                None => None,
            }),
            Operand::FullField(d) => OperandV::FullField(d.domain@),
            Operand::BaseField(d) => OperandV::BaseField(d.domain@),
            Operand::ShortField(d) => OperandV::ShortField(d.domain@),
        }
    }

    /// Every value the operand holds is canonical.
    pub open spec fn owf(&self) -> bool {
        match self {
            Operand::Field(Some(f)) => f.wf(),
            Operand::Point(Some(p)) => p.wf(),
            Operand::NIPoint(Some(p)) => p.wf(),
            Operand::Scalar(Some(s)) => s.wf(),
            Operand::MagnitudeSign(Some(ms)) => ms.0.wf() && ms.1.wf(),
            Operand::Cell(Some(f)) => f.wf(),
            _ => true,
        }
    }

    /// The operand's tag, as the configuration spells it.
    pub open spec fn spec_type_string(&self) -> Seq<char> {
        match self {
            Operand::Field(_) => "Field"@,
            Operand::Point(_) => "Point"@,
            Operand::NIPoint(_) => "NIPoint"@,
            Operand::Scalar(_) => "Scalar"@,
            Operand::MagnitudeSign(_) => "MagnitudeSign"@,
            Operand::Cell(_) => "Cell"@,
            Operand::FullField(_) => "FullField"@,
            Operand::BaseField(_) => "BaseField"@,
            Operand::ShortField(_) => "ShortField"@,
        }
    }

    /// The operand's tag as a string.
    pub fn to_type_string(&self) -> (r: String)
        ensures
            r@ == self.spec_type_string(),
    {
        match self {
            Operand::Field(_) => "Field".to_owned(),
            Operand::Point(_) => "Point".to_owned(),
            Operand::NIPoint(_) => "NIPoint".to_owned(),
            Operand::Scalar(_) => "Scalar".to_owned(),
            Operand::MagnitudeSign(_) => "MagnitudeSign".to_owned(),
            Operand::Cell(_) => "Cell".to_owned(),
            Operand::FullField(_) => "FullField".to_owned(),
            Operand::BaseField(_) => "BaseField".to_owned(),
            Operand::ShortField(_) => "ShortField".to_owned(),
        }
    }
}

impl Clone for Operand {
    fn clone(&self) -> (r: Self)
        ensures
            r.v() == self.v(),
            r.owf() == self.owf(),
            r.spec_type_string() == self.spec_type_string(),
    {
        match self {
            Operand::Field(x) => Operand::Field(match x {
                Some(f) => Some(f.clone()),
                None => None,
            }),
            Operand::Point(x) => Operand::Point(match x {
                Some(p) => Some(p.clone()),
                None => None,
            }),
            Operand::NIPoint(x) => Operand::NIPoint(match x {
                Some(p) => Some(p.clone()),
                None => None,
            }),
            Operand::Scalar(x) => Operand::Scalar(match x {
                Some(s) => Some(s.clone()),
                None => None,
            }),
            Operand::MagnitudeSign(x) => Operand::MagnitudeSign(match x {
                Some(ms) => Some((ms.0.clone(), ms.1.clone())),
                None => None,
            }),
            Operand::Cell(x) => Operand::Cell(match x {
                Some(f) => Some(f.clone()),
                None => None,
            }),
            Operand::FullField(d) => Operand::FullField(d.clone()),
            Operand::BaseField(d) => Operand::BaseField(d.clone()),
            Operand::ShortField(d) => Operand::ShortField(d.clone()),
        }
    }
}

/// A mathematical operand environment: name-value pairs, later pairs
/// winning.
pub open spec fn envs_get(s: Seq<(Seq<char>, OperandV)>, key: Seq<char>) -> Option<OperandV>
    decreases s.len(),
{
    if s.len() == 0 {
        None
    } else if s.last().0 == key {
        Some(s.last().1)
    } else {
        envs_get(s.drop_last(), key)
    }
}

/// The named operand environment of one synthesis call.
pub struct OperandEnv {
    pub items: Vec<(String, Operand)>,
}

impl OperandEnv {
    /// The mathematical reading of the environment.
    pub open spec fn view_env(&self) -> Seq<(Seq<char>, OperandV)> {
        self.items@.map_values(|p: (String, Operand)| (p.0@, p.1.v()))
    }

    /// Every operand in the environment is canonical.
    pub open spec fn env_wf(&self) -> bool {
        forall|i: int| 0 <= i < self.items@.len() ==> (#[trigger] self.items@[i]).1.owf()
    }

    /// An empty environment.
    pub fn new() -> (r: OperandEnv)
        ensures
            r.view_env() =~= Seq::<(Seq<char>, OperandV)>::empty(),
            r.env_wf(),
    {
        OperandEnv { items: Vec::new() }
    }

    /// Binds a name to an operand; the newest binding wins.
    pub fn set(&mut self, name: &str, op: Operand)
        requires
            op.owf(),
            old(self).env_wf(),
        ensures
            final(self).env_wf(),
            final(self).view_env() =~= old(self).view_env().push((name@, op.v())),
    {
        let ghost pre = self.items@;
        self.items.push((name.to_owned(), op));
        proof {
            assert forall|i: int| 0 <= i < self.items@.len() implies (#[trigger] self.items@[i]).1.owf() by {
                if i < pre.len() {
                    assert(self.items@[i] == pre[i]);
                }
            }
        }
    }

    /// The operand bound to a name, or `None` where the name is unbound.
    pub fn get(&self, name: &String) -> (r: Option<Operand>)
        requires
            self.env_wf(),
        ensures
            match r {
                Some(op) => envs_get(self.view_env(), name@) == Some(op.v()) && op.owf(),
                None => envs_get(self.view_env(), name@) is None,
            },
    {
        let ghost vs = self.view_env();
        let mut i: usize = self.items.len();
        proof {
            assert(vs.take(vs.len() as int) =~= vs);
        }
        while i > 0
            invariant
                i <= self.items@.len(),
                vs == self.view_env(),
                vs.len() == self.items@.len(),
                self.env_wf(),
                envs_get(vs, name@) == envs_get(vs.take(i as int), name@),
            decreases i,
        {
            proof {
                assert(vs.take(i as int).drop_last() =~= vs.take(i as int - 1));
                assert(vs.take(i as int).last() == vs[i as int - 1]);
                assert(vs[i as int - 1] == (self.items@[i as int - 1].0@, self.items@[
                    i as int - 1].1.v()));
            }
            if string_eq_lit(&self.items[i - 1].0, name.as_str()) {
                let op = self.items[i - 1].1.clone();
                return Some(op);
            }
            i = i - 1;
        }
        proof {
            assert(vs.take(0) =~= Seq::<(Seq<char>, OperandV)>::empty());
        }
        None
    }
}

// ------------------------------------------------------------------
// Dispatch, mathematically.
// ------------------------------------------------------------------

/// Whether the exchange rule swaps the two operands before dispatch:
/// addition of a point and a non-identity point is commuted, and a
/// multiplication whose right tag is a point or fixed-base descriptor is
/// commuted so that the descriptor stands on the left.
pub open spec fn spec_exchange(op: Seq<char>, tag1: Seq<char>, tag2: Seq<char>) -> bool {
    (op == "add"@ && tag1 == "Point"@ && tag2 == "NIPoint"@) || (op == "mul"@ && (tag2
        == "NIPoint"@ || tag2 == "FullField"@ || tag2 == "BaseField"@ || tag2 == "ShortField"@))
}

/// Whether a tag is one of the wire tags.
pub open spec fn spec_is_cell_tag(tag: Seq<char>) -> bool {
    tag == "Cell"@ || tag == "CommitCell"@
}

/// The scalar of a magnitude and sign pair: the magnitude where the sign
/// is one, and its scalar-field negation otherwise.
pub open spec fn spec_short_scalar(m: nat, s: nat) -> nat {
    if s == 1 {
        m
    } else {
        ((q_modulus() - m) % (q_modulus() as int)) as nat
    }
}

/// The dispatch table after the exchange rule: what each operator returns
/// for each pair of tagged operands, and which pairs are errors. Unknown
/// values give unknown results of the operator's result kind.
pub open spec fn spec_point_compute(
    reg: &Registry,
    op: Seq<char>,
    tag1: Seq<char>,
    a: OperandV,
    tag2: Seq<char>,
    b: OperandV,
) -> Result<OperandV, SynthesisError> {
    if op == "add"@ {
        if tag1 == "Point"@ {
            match (a, b) {
                (OperandV::Point(av), OperandV::Point(bv)) => Ok(
                    OperandV::Point(spec_zip_pt_add(av, bv)),
                ),
                (OperandV::Point(av), OperandV::NIPoint(bv)) => Ok(
                    OperandV::Point(spec_zip_pt_add(av, bv)),
                ),
                _ => Err(SynthesisError::Synthesis),
            }
        } else if tag1 == "NIPoint"@ {
            match (a, b) {
                (OperandV::NIPoint(av), OperandV::Point(bv)) => Ok(
                    OperandV::Point(spec_zip_pt_add(av, bv)),
                ),
                (OperandV::NIPoint(av), OperandV::NIPoint(bv)) => Ok(
                    OperandV::Point(spec_zip_pt_add(av, bv)),
                ),
                _ => Err(SynthesisError::Synthesis),
            }
        } else if spec_is_cell_tag(tag1) {
            match (a, b) {
                (OperandV::Cell(av), OperandV::Cell(bv)) => Ok(
                    OperandV::Field(spec_zip_fe_add(av, bv)),
                ),
                _ => Err(SynthesisError::Synthesis),
            }
        } else {
            Err(SynthesisError::Synthesis)
        }
    } else if op == "mul"@ {
        if spec_is_cell_tag(tag1) {
            match (a, b) {
                (OperandV::Cell(av), OperandV::Cell(bv)) => Ok(
                    OperandV::Field(spec_zip_fe_mul(av, bv)),
                ),
                _ => Err(SynthesisError::Synthesis),
            }
        } else if tag1 == "NIPoint"@ {
            match (a, b) {
                (OperandV::NIPoint(av), OperandV::Cell(bv)) => Ok(
                    OperandV::Point(spec_zip_pt_mul(av, bv)),
                ),
                _ => Err(SynthesisError::Synthesis),
            }
        } else if tag1 == "FullField"@ {
            match (a, b) {
                (OperandV::FullField(domain), OperandV::Scalar(sv)) => spec_gen_mul(
                    reg,
                    domain,
                    sv,
                ),
                _ => Err(SynthesisError::Synthesis),
            }
        } else if tag1 == "BaseField"@ {
            match (a, b) {
                (OperandV::BaseField(domain), OperandV::Cell(bv)) => spec_gen_mul(
                    reg,
                    domain,
                    bv,
                ),
                _ => Err(SynthesisError::Synthesis),
            }
        } else if tag1 == "ShortField"@ {
            match (a, b) {
                (OperandV::ShortField(domain), OperandV::MagnitudeSign(ms)) => spec_gen_mul(
                    reg,
                    domain,
                    match ms {
                        Some(p) => Some(spec_short_scalar(p.0, p.1)),
                        None => None,
                    },
                ),
                _ => Err(SynthesisError::Synthesis),
            }
        } else {
            Err(SynthesisError::Synthesis)
        }
    } else {
        Err(SynthesisError::Synthesis)
    }
}

/// Point addition over possibly unknown operands.
pub open spec fn spec_zip_pt_add(a: Option<Seq<u8>>, b: Option<Seq<u8>>) -> Option<Seq<u8>> {
    match (a, b) {
        (Some(x), Some(y)) => Some(pt_add_of(x, y)),
        _ => None,
    }
}

/// Field addition over possibly unknown operands.
pub open spec fn spec_zip_fe_add(a: Option<nat>, b: Option<nat>) -> Option<nat> {
    match (a, b) {
        (Some(x), Some(y)) => Some((((x + y) as int) % (p_modulus() as int)) as nat),
        _ => None,
    }
}

/// Field multiplication over possibly unknown operands.
pub open spec fn spec_zip_fe_mul(a: Option<nat>, b: Option<nat>) -> Option<nat> {
    match (a, b) {
        (Some(x), Some(y)) => Some((((x * y) as int) % (p_modulus() as int)) as nat),
        _ => None,
    }
}

/// Variable-base multiplication over possibly unknown operands.
pub open spec fn spec_zip_pt_mul(p: Option<Seq<u8>>, s: Option<nat>) -> Option<Seq<u8>> {
    match (p, s) {
        (Some(pe), Some(sv)) => Some(pt_mul_of(pe, sv)),
        _ => None,
    }
}

/// Fixed-base multiplication by a domain's generator: an unknown scalar
/// gives an unknown point, a known scalar multiplies the generator, and a
/// domain whose configured generator coordinates name no curve point is a
/// configuration error.
pub open spec fn spec_gen_mul(reg: &Registry, domain: Seq<char>, s: Option<nat>) -> Result<
    OperandV,
    SynthesisError,
> {
    match s {
        None => Ok(OperandV::Point(None)),
        Some(sv) => if reg.spec_gen_ok(domain) {
            Ok(OperandV::Point(Some(pt_mul_of(reg.spec_gen_enc(domain), sv))))
        } else {
            Err(SynthesisError::Synthesis)
        },
    }
}

/// The Poseidon step over possibly unknown operands.
pub open spec fn spec_zip_poseidon(a: Option<nat>, b: Option<nat>) -> Option<nat> {
    match (a, b) {
        (Some(x), Some(y)) => Some(poseidon2_of(x, y)),
        _ => None,
    }
}

/// One dispatch of an operator over two tagged operands: Poseidon first,
/// then the exchange rule, then the dispatch table.
pub open spec fn spec_dispatch(
    reg: &Registry,
    op: Seq<char>,
    tag1: Seq<char>,
    a: OperandV,
    tag2: Seq<char>,
    b: OperandV,
) -> Result<OperandV, SynthesisError> {
    if op == "poseidon"@ {
        if spec_is_cell_tag(tag1) {
            match (a, b) {
                (OperandV::Cell(av), OperandV::Cell(bv)) => Ok(
                    OperandV::Cell(spec_zip_poseidon(av, bv)),
                ),
                _ => Err(SynthesisError::Synthesis),
            }
        } else {
            Err(SynthesisError::Synthesis)
        }
    } else if spec_exchange(op, tag1, tag2) {
        spec_point_compute(reg, op, tag2, b, tag1, a)
    } else {
        spec_point_compute(reg, op, tag1, a, tag2, b)
    }
}

/// Dispatch is total: every operator and pair of tagged operands has
/// either a well-defined result or the synthesis error — nothing else.
pub proof fn lemma_dispatch_total(
    reg: &Registry,
    op: Seq<char>,
    tag1: Seq<char>,
    a: OperandV,
    tag2: Seq<char>,
    b: OperandV,
)
    ensures
        spec_dispatch(reg, op, tag1, a, tag2, b) matches Ok(_) || spec_dispatch(
            reg,
            op,
            tag1,
            a,
            tag2,
            b,
        ) == Err::<OperandV, SynthesisError>(SynthesisError::Synthesis),
{
}


// ------------------------------------------------------------------
// Dispatch, executably.
// ------------------------------------------------------------------

/// The tag of a mathematical operand, as the configuration spells it.
pub open spec fn vtag(v: OperandV) -> Seq<char> {
    match v {
        OperandV::Field(_) => "Field"@,
        OperandV::Point(_) => "Point"@,
        OperandV::NIPoint(_) => "NIPoint"@,
        OperandV::Scalar(_) => "Scalar"@,
        OperandV::MagnitudeSign(_) => "MagnitudeSign"@,
        OperandV::Cell(_) => "Cell"@,
        OperandV::FullField(_) => "FullField"@,
        OperandV::BaseField(_) => "BaseField"@,
        OperandV::ShortField(_) => "ShortField"@,
    }
}

/// An operand's tag is the tag of its reading.
pub proof fn lemma_vtag(op: &Operand)
    ensures
        vtag(op.v()) == op.spec_type_string(),
{
}

/// The dispatch table after the exchange rule, executably.
fn point_compute(
    reg: &Registry,
    operator: &String,
    tag1: &String,
    a: &Operand,
    tag2: &String,
    b: &Operand,
) -> (r: Result<Operand, SynthesisError>)
    requires
        a.owf(),
        b.owf(),
    ensures
        spec_point_compute(reg, operator@, tag1@, a.v(), tag2@, b.v()) matches Err(e) ==> r
            == Err::<Operand, SynthesisError>(e),
        spec_point_compute(reg, operator@, tag1@, a.v(), tag2@, b.v()) matches Ok(v) ==> (r
            matches Ok(op) && op.v() == v),
        r matches Ok(op) ==> op.owf(),
{
    if string_eq_lit(operator, "add") {
        if string_eq_lit(tag1, "Point") {
            match (a, b) {
                (Operand::Point(av), Operand::Point(bv)) => Ok(Operand::Point(zip_pt_add(av, bv))),
                (Operand::Point(av), Operand::NIPoint(bv)) => Ok(
                    Operand::Point(zip_pt_add(av, bv)),
                ),
                _ => Err(SynthesisError::Synthesis),
            }
        } else if string_eq_lit(tag1, "NIPoint") {
            match (a, b) {
                (Operand::NIPoint(av), Operand::Point(bv)) => Ok(
                    Operand::Point(zip_pt_add(av, bv)),
                ),
                (Operand::NIPoint(av), Operand::NIPoint(bv)) => Ok(
                    Operand::Point(zip_pt_add(av, bv)),
                ),
                _ => Err(SynthesisError::Synthesis),
            }
        } else if string_eq_lit(tag1, "Cell") || string_eq_lit(tag1, "CommitCell") {
            match (a, b) {
                (Operand::Cell(av), Operand::Cell(bv)) => match (av, bv) {
                    (Some(x), Some(y)) => Ok(Operand::Field(Some(fe_add(x, y)))),
                    _ => Ok(Operand::Field(None)),
                },
                _ => Err(SynthesisError::Synthesis),
            }
        } else {
            Err(SynthesisError::Synthesis)
        }
    } else if string_eq_lit(operator, "mul") {
        if string_eq_lit(tag1, "Cell") || string_eq_lit(tag1, "CommitCell") {
            match (a, b) {
                (Operand::Cell(av), Operand::Cell(bv)) => match (av, bv) {
                    (Some(x), Some(y)) => Ok(Operand::Field(Some(fe_mul(x, y)))),
                    _ => Ok(Operand::Field(None)),
                },
                _ => Err(SynthesisError::Synthesis),
            }
        } else if string_eq_lit(tag1, "NIPoint") {
            match (a, b) {
                (Operand::NIPoint(av), Operand::Cell(bv)) => match (av, bv) {
                    (Some(p), Some(x)) => {
                        let s = fe_to_scalar(x);
                        Ok(Operand::Point(Some(pt_mul(p, &s))))
                    },
                    _ => Ok(Operand::Point(None)),
                },
                _ => Err(SynthesisError::Synthesis),
            }
        } else if string_eq_lit(tag1, "FullField") {
            match (a, b) {
                (Operand::FullField(d), Operand::Scalar(sv)) => match sv {
                    Some(s) => match reg.generator(d.domain.as_str()) {
                        Some(g) => Ok(Operand::Point(Some(pt_mul(&g, s)))),
                        None => Err(SynthesisError::Synthesis),
                    },
                    None => Ok(Operand::Point(None)),
                },
                _ => Err(SynthesisError::Synthesis),
            }
        } else if string_eq_lit(tag1, "BaseField") {
            match (a, b) {
                (Operand::BaseField(d), Operand::Cell(bv)) => match bv {
                    Some(x) => match reg.generator(d.domain.as_str()) {
                        Some(g) => {
                            let s = fe_to_scalar(x);
                            Ok(Operand::Point(Some(pt_mul(&g, &s))))
                        },
                        None => Err(SynthesisError::Synthesis),
                    },
                    None => Ok(Operand::Point(None)),
                },
                _ => Err(SynthesisError::Synthesis),
            }
        } else if string_eq_lit(tag1, "ShortField") {
            match (a, b) {
                (Operand::ShortField(d), Operand::MagnitudeSign(ms)) => match ms {
                    Some(pair) => match reg.generator(d.domain.as_str()) {
                        Some(g) => {
                            let sm = fe_to_scalar(&pair.0);
                            let one = fe_from_u64(1);
                            proof {
                                lemma_fe_eq_iff_val_eq(&pair.1, &one);
                            }
                            let s = if pair.1 == one {
                                sm
                            } else {
                                sc_neg(&sm)
                            };
                            Ok(Operand::Point(Some(pt_mul(&g, &s))))
                        },
                        None => Err(SynthesisError::Synthesis),
                    },
                    None => Ok(Operand::Point(None)),
                },
                _ => Err(SynthesisError::Synthesis),
            }
        } else {
            Err(SynthesisError::Synthesis)
        }
    } else {
        Err(SynthesisError::Synthesis)
    }
}

/// Point addition over possibly unknown operands, executably.
fn zip_pt_add(a: &Option<Pt>, b: &Option<Pt>) -> (r: Option<Pt>)
    requires
        (a matches Some(p) ==> p.wf()),
        (b matches Some(p) ==> p.wf()),
    ensures
        match r {
            Some(p) => p.wf() && Some(p.enc()) == spec_zip_pt_add(
                match a {
                    Some(x) => Some(x.enc()),
                    None => None,
                },
                match b {
                    Some(y) => Some(y.enc()),
                    None => None,
                },
            ),
            None => spec_zip_pt_add(
                match a {
                    Some(x) => Some(x.enc()),
                    None => None,
                },
                match b {
                    Some(y) => Some(y.enc()),
                    None => None,
                },
            ) is None,
        },
{
    match (a, b) {
        (Some(x), Some(y)) => Some(pt_add(x, y)),
        _ => None,
    }
}

/// One dispatch of an operator over two tagged operands: Poseidon first,
/// then the exchange rule, then the dispatch table.
pub fn operand_dispatch(
    reg: &Registry,
    operator: &String,
    tag1: &String,
    a: &Operand,
    tag2: &String,
    b: &Operand,
) -> (r: Result<Operand, SynthesisError>)
    requires
        a.owf(),
        b.owf(),
    ensures
        spec_dispatch(reg, operator@, tag1@, a.v(), tag2@, b.v()) matches Err(e) ==> r
            == Err::<Operand, SynthesisError>(e),
        spec_dispatch(reg, operator@, tag1@, a.v(), tag2@, b.v()) matches Ok(v) ==> (r matches Ok(
            op,
        ) && op.v() == v),
        r matches Ok(op) ==> op.owf(),
{
    if string_eq_lit(operator, "poseidon") {
        if string_eq_lit(tag1, "Cell") || string_eq_lit(tag1, "CommitCell") {
            match (a, b) {
                (Operand::Cell(av), Operand::Cell(bv)) => match (av, bv) {
                    (Some(x), Some(y)) => Ok(Operand::Cell(Some(poseidon_hash2(x, y)))),
                    _ => Ok(Operand::Cell(None)),
                },
                _ => Err(SynthesisError::Synthesis),
            }
        } else {
            Err(SynthesisError::Synthesis)
        }
    } else {
        let mut exchange = false;
        if string_eq_lit(operator, "add") {
            exchange = string_eq_lit(tag1, "Point") && string_eq_lit(tag2, "NIPoint");
        }
        if !exchange && string_eq_lit(operator, "mul") {
            exchange = string_eq_lit(tag2, "NIPoint") || string_eq_lit(tag2, "FullField")
                || string_eq_lit(tag2, "BaseField") || string_eq_lit(tag2, "ShortField");
        }
        if exchange {
            point_compute(reg, operator, tag2, b, tag1, a)
        } else {
            point_compute(reg, operator, tag1, a, tag2, b)
        }
    }
}


// ------------------------------------------------------------------
// Items and chains.
// ------------------------------------------------------------------

/// Materialization: a bare field result is stored as a wire-backed cell,
/// so later lookups always see wires.
pub open spec fn spec_materialize(v: OperandV) -> OperandV {
    match v {
        OperandV::Field(x) => OperandV::Cell(x),
        _ => v,
    }
}

/// Storing a result: under an empty name nothing is stored; otherwise the
/// materialized result is bound to the name and returned.
pub open spec fn spec_store(
    env: Seq<(Seq<char>, OperandV)>,
    name: Seq<char>,
    v: OperandV,
) -> (OperandV, Seq<(Seq<char>, OperandV)>) {
    if name.len() == 0 {
        (v, env)
    } else {
        let m = spec_materialize(v);
        (m, env.push((name, m)))
    }
}

/// One dispatch followed by the store of its result.
pub open spec fn spec_two(
    reg: &Registry,
    env: Seq<(Seq<char>, OperandV)>,
    op: Seq<char>,
    name: Seq<char>,
    tag1: Seq<char>,
    a: OperandV,
    tag2: Seq<char>,
    b: OperandV,
) -> Result<(OperandV, Seq<(Seq<char>, OperandV)>), SynthesisError> {
    match spec_dispatch(reg, op, tag1, a, tag2, b) {
        Err(e) => Err(e),
        Ok(v) => Ok(spec_store(env, name, v)),
    }
}

/// One step of an algorithm: a single-operand step fetches its operand; a
/// two-operand step fetches both, dispatches, and stores the result.
pub open spec fn spec_item_compute(
    reg: &Registry,
    env: Seq<(Seq<char>, OperandV)>,
    item: &AlgoItem,
) -> Result<(OperandV, Seq<(Seq<char>, OperandV)>), SynthesisError> {
    match item.operand2 {
        None => match envs_get(env, item.operand1.name@) {
            Some(v) => Ok((v, env)),
            None => Err(SynthesisError::Synthesis),
        },
        Some(op2) => match (envs_get(env, item.operand1.name@), envs_get(env, op2.name@)) {
            (Some(v1), Some(v2)) => spec_two(
                reg,
                env,
                item.operator@,
                item.name@,
                item.operand1.tag@,
                v1,
                op2.tag@,
                v2,
            ),
            _ => Err(SynthesisError::Synthesis),
        },
    }
}

/// The chain fold from step `k` on: step `k` is computed on its own, then
/// combined with the running result under the step's chain operator; a
/// step without a second operand contributes its own fetched operand as
/// the right-hand side.
pub open spec fn spec_chain_rest(
    reg: &Registry,
    env: Seq<(Seq<char>, OperandV)>,
    items: Seq<ChainItem>,
    k: int,
    acc: OperandV,
) -> Result<(OperandV, Seq<(Seq<char>, OperandV)>), SynthesisError>
    decreases items.len() - k,
{
    if k < 0 || k >= items.len() {
        Ok((acc, env))
    } else {
        let ci = items[k];
        match spec_item_compute(reg, env, &ci.item) {
            Err(e) => Err(e),
            Ok(t) => {
                let tag2 = if ci.item.operand2 is Some {
                    vtag(t.0)
                } else {
                    ci.item.operand1.tag@
                };
                match spec_two(
                    reg,
                    t.1,
                    ci.chain_op@,
                    ci.item.name@,
                    vtag(acc),
                    acc,
                    tag2,
                    t.0,
                ) {
                    Err(e) => Err(e),
                    Ok(t2) => spec_chain_rest(reg, t2.1, items, k + 1, t2.0),
                }
            },
        }
    }
}

/// A whole algorithm: the first step seeds the running result, and every
/// later step folds into it left to right.
pub open spec fn spec_algo_compute(
    reg: &Registry,
    env: Seq<(Seq<char>, OperandV)>,
    algo: &Algo,
) -> Result<(OperandV, Seq<(Seq<char>, OperandV)>), SynthesisError> {
    if algo.items@.len() == 0 {
        Err(SynthesisError::Synthesis)
    } else {
        match spec_item_compute(reg, env, &algo.items@[0].item) {
            Err(e) => Err(e),
            Ok(t) => spec_chain_rest(reg, t.1, algo.items@, 1, t.0),
        }
    }
}

impl OperandEnv {
    /// Stores a computed result under a step's name: nothing under an
    /// empty name, the materialized result otherwise.
    fn store_result(&mut self, name: &String, v: Operand) -> (r: Operand)
        requires
            old(self).env_wf(),
            v.owf(),
        ensures
            final(self).env_wf(),
            r.owf(),
            ({
                let t = spec_store(old(self).view_env(), name@, v.v());
                r.v() == t.0 && final(self).view_env() =~= t.1
            }),
    {
        if name.as_str().is_empty() {
            v
        } else {
            let m = match v {
                Operand::Field(x) => Operand::Cell(x),
                other => other,
            };
            let m2 = m.clone();
            self.set(name.as_str(), m);
            m2
        }
    }
}

impl AlgoItem {
    /// Evaluates one step against the environment.
    pub fn compute(&self, reg: &Registry, env: &mut OperandEnv) -> (r: Result<
        Operand,
        SynthesisError,
    >)
        requires
            old(env).env_wf(),
        ensures
            final(env).env_wf(),
            spec_item_compute(reg, old(env).view_env(), self) matches Err(e) ==> r == Err::<
                Operand,
                SynthesisError,
            >(e),
            spec_item_compute(reg, old(env).view_env(), self) matches Ok(t) ==> (r matches Ok(op)
                && op.v() == t.0 && final(env).view_env() =~= t.1),
            r matches Ok(op) ==> op.owf(),
    {
        match &self.operand2 {
            None => match env.get(&self.operand1.name) {
                Some(op) => Ok(op),
                None => Err(SynthesisError::Synthesis),
            },
            Some(op2) => {
                let v1 = match env.get(&self.operand1.name) {
                    Some(v) => v,
                    None => {
                        return Err(SynthesisError::Synthesis);
                    },
                };
                let v2 = match env.get(&op2.name) {
                    Some(v) => v,
                    None => {
                        return Err(SynthesisError::Synthesis);
                    },
                };
                match operand_dispatch(reg, &self.operator, &self.operand1.tag, &v1, &op2.tag, &v2)
                {
                    Err(e) => Err(e),
                    Ok(v) => Ok(env.store_result(&self.name, v)),
                }
            },
        }
    }
}

impl Algo {
    /// Evaluates the whole chain left to right against the environment.
    pub fn compute(&self, reg: &Registry, env: &mut OperandEnv) -> (r: Result<
        Operand,
        SynthesisError,
    >)
        requires
            old(env).env_wf(),
        ensures
            final(env).env_wf(),
            spec_algo_compute(reg, old(env).view_env(), self) matches Err(e) ==> r == Err::<
                Operand,
                SynthesisError,
            >(e),
            spec_algo_compute(reg, old(env).view_env(), self) matches Ok(t) ==> (r matches Ok(op)
                && op.v() == t.0 && final(env).view_env() =~= t.1),
            r matches Ok(op) ==> op.owf(),
    {
        let ghost env0 = env.view_env();
        if self.items.len() == 0 {
            return Err(SynthesisError::Synthesis);
        }
        let mut acc = match self.items[0].item.compute(reg, env) {
            Ok(v) => v,
            Err(e) => {
                return Err(e);
            },
        };
        let mut k: usize = 1;
        while k < self.items.len()
            invariant
                1 <= k <= self.items@.len(),
                env.env_wf(),
                acc.owf(),
                env0 == old(env).view_env(),
                spec_algo_compute(reg, env0, self) == spec_chain_rest(
                    reg,
                    env.view_env(),
                    self.items@,
                    k as int,
                    acc.v(),
                ),
            decreases self.items@.len() - k,
        {
            let ghost env_k = env.view_env();
            let ci = &self.items[k];
            let vi = match ci.item.compute(reg, env) {
                Ok(v) => v,
                Err(e) => {
                    proof {
                        assert(spec_item_compute(reg, env_k, &self.items@[k as int].item)
                            is Err);
                        assert(spec_chain_rest(reg, env_k, self.items@, k as int, acc.v())
                            is Err);
                    }
                    return Err(e);
                },
            };
            let tag2 = if ci.item.operand2.is_some() {
                vi.to_type_string()
            } else {
                ci.item.operand1.tag.clone()
            };
            let tag1 = acc.to_type_string();
            proof {
                lemma_vtag(&vi);
                lemma_vtag(&acc);
            }
            match operand_dispatch(reg, &ci.chain_op, &tag1, &acc, &tag2, &vi) {
                Err(e) => {
                    proof {
                        assert(spec_dispatch(reg, ci.chain_op@, tag1@, acc.v(), tag2@, vi.v())
                            is Err);
                        assert(spec_chain_rest(reg, env_k, self.items@, k as int, acc.v())
                            is Err);
                    }
                    return Err(e);
                },
                Ok(v) => {
                    acc = env.store_result(&ci.item.name, v);
                },
            }
            k = k + 1;
        }
        Ok(acc)
    }
}


// ------------------------------------------------------------------
// The chain fold law.
// ------------------------------------------------------------------

/// Pushing a binding leaves lookups of other names alone.
pub proof fn lemma_envs_get_push(
    s: Seq<(Seq<char>, OperandV)>,
    entry: (Seq<char>, OperandV),
    key: Seq<char>,
)
    ensures
        envs_get(s.push(entry), key) == if entry.0 == key {
            Some(entry.1)
        } else {
            envs_get(s, key)
        },
{
    assert(s.push(entry).drop_last() =~= s);
}

/// The known wire value bound to a lookup result; zero where there is none.
pub open spec fn cell_value_of(o: Option<OperandV>) -> nat {
    match o {
        Some(OperandV::Cell(Some(x))) => x,
        _ => 0,
    }
}

/// A chain suffix made of single-operand steps over known field wires:
/// every step fetches a bound wire, folds under field addition, and stores
/// its result under a fresh name that shadows no step's operand.
pub open spec fn wire_chain_suffix(
    env: Seq<(Seq<char>, OperandV)>,
    items: Seq<ChainItem>,
    k: int,
) -> bool {
    forall|j: int|
        k <= j < items.len() ==> {
            let ci = #[trigger] items[j];
            &&& ci.chain_op@ == "add"@
            &&& ci.item.operand2 is None
            &&& ci.item.operand1.tag@ == "Cell"@
            &&& ci.item.name@.len() > 0
            &&& (envs_get(env, ci.item.operand1.name@) matches Some(v) && v matches
                OperandV::Cell(x) && x is Some)
            &&& forall|j2: int| k <= j2 < items.len() ==> ci.item.name@ != (#[trigger] items[j2]).item.operand1.name@
        }
}

/// The reference left fold: from step `k` on, each step's wire value is
/// added to the running value, mod the field modulus.
pub open spec fn chain_sum(
    env: Seq<(Seq<char>, OperandV)>,
    items: Seq<ChainItem>,
    k: int,
    a: nat,
) -> nat
    decreases items.len() - k,
{
    if k < 0 || k >= items.len() {
        a
    } else {
        let x = cell_value_of(envs_get(env, items[k].item.operand1.name@));
        chain_sum(env, items, k + 1, (((a + x) as int) % (p_modulus() as int)) as nat)
    }
}

/// The reference fold does not see bindings under names that no step
/// fetches.
proof fn lemma_chain_sum_push(
    env: Seq<(Seq<char>, OperandV)>,
    items: Seq<ChainItem>,
    k: int,
    a: nat,
    entry: (Seq<char>, OperandV),
)
    requires
        forall|j: int| k <= j < items.len() ==> entry.0 != (#[trigger] items[j]).item.operand1.name@,
    ensures
        chain_sum(env.push(entry), items, k, a) == chain_sum(env, items, k, a),
    decreases items.len() - k,
{
    if 0 <= k < items.len() {
        lemma_envs_get_push(env, entry, items[k].item.operand1.name@);
        let x = cell_value_of(envs_get(env, items[k].item.operand1.name@));
        lemma_chain_sum_push(env, items, k + 1, (((a + x) as int) % (p_modulus() as int)) as nat,
            entry);
    }
}

/// Pushing a fresh binding keeps a wire-chain suffix a wire-chain suffix.
proof fn lemma_wire_chain_suffix_push(
    env: Seq<(Seq<char>, OperandV)>,
    items: Seq<ChainItem>,
    k: int,
    entry: (Seq<char>, OperandV),
)
    requires
        wire_chain_suffix(env, items, k),
        forall|j: int| k <= j < items.len() ==> entry.0 != (#[trigger] items[j]).item.operand1.name@,
    ensures
        wire_chain_suffix(env.push(entry), items, k),
{
    assert forall|j: int| k <= j < items.len() implies {
        let ci = #[trigger] items[j];
        &&& ci.chain_op@ == "add"@
        &&& ci.item.operand2 is None
        &&& ci.item.operand1.tag@ == "Cell"@
        &&& ci.item.name@.len() > 0
        &&& (envs_get(env.push(entry), ci.item.operand1.name@) matches Some(v) && v matches
            OperandV::Cell(x) && x is Some)
        &&& forall|j2: int| k <= j2 < items.len() ==> ci.item.name@ != (#[trigger] items[j2]).item.operand1.name@
    } by {
        assert(items[j] == items[j]);
        lemma_envs_get_push(env, entry, items[j].item.operand1.name@);
    }
}

/// Over a wire-chain suffix, the chain evaluation from step `k` with a
/// known running wire value succeeds and computes exactly the reference
/// left fold.
pub proof fn lemma_chain_rest_left_fold(
    reg: &Registry,
    env: Seq<(Seq<char>, OperandV)>,
    items: Seq<ChainItem>,
    k: int,
    a: nat,
)
    requires
        0 <= k <= items.len(),
        wire_chain_suffix(env, items, k),
    ensures
        spec_chain_rest(reg, env, items, k, OperandV::Cell(Some(a))) matches Ok(t) && t.0
            == OperandV::Cell(Some(chain_sum(env, items, k, a))),
    decreases items.len() - k,
{
    if k < items.len() {
        let ci = items[k];
        let fetched = envs_get(env, ci.item.operand1.name@);
        let x = cell_value_of(fetched);
        let s = (((a + x) as int) % (p_modulus() as int)) as nat;
        let entry = (ci.item.name@, OperandV::Cell(Some(s)));
        reveal_strlit("add");
        reveal_strlit("mul");
        reveal_strlit("poseidon");
        reveal_strlit("Point");
        reveal_strlit("NIPoint");
        reveal_strlit("Cell");
        assert("add"@.len() == 3 && "poseidon"@.len() == 8 && "mul"@.len() == 3 && "Cell"@.len()
            == 4 && "Point"@.len() == 5 && "NIPoint"@.len() == 7);
        assert("add"@[0] == 'a' && "mul"@[0] == 'm');
        assert("add"@ != "poseidon"@ && "add"@ != "mul"@ && "Cell"@ != "Point"@ && "Cell"@
            != "NIPoint"@);
        assert(spec_item_compute(reg, env, &ci.item) == Ok::<
            (OperandV, Seq<(Seq<char>, OperandV)>),
            SynthesisError,
        >((OperandV::Cell(Some(x)), env)));
        assert(!spec_exchange(ci.chain_op@, "Cell"@, ci.item.operand1.tag@));
        assert(spec_dispatch(reg, ci.chain_op@, "Cell"@, OperandV::Cell(Some(a)), "Cell"@,
            OperandV::Cell(Some(x))) == Ok::<OperandV, SynthesisError>(OperandV::Field(Some(s))));
        assert(forall|j: int| k + 1 <= j < items.len() ==> entry.0 != (#[trigger] items[j]).item.operand1.name@);
        lemma_wire_chain_suffix_push(env, items, k + 1, entry);
        lemma_chain_rest_left_fold(reg, env.push(entry), items, k + 1, s);
        lemma_chain_sum_push(env, items, k + 1, s, entry);
    }
}

/// The chain law: a whole algorithm of two or more single-operand steps
/// over known field wires evaluates to the left fold of field addition
/// over the fetched wire values, seeded by the first step's own operand —
/// each later step's operand joins as the right-hand addend against the
/// running result.
pub proof fn lemma_algo_left_fold(reg: &Registry, env: Seq<(Seq<char>, OperandV)>, algo: &Algo)
    requires
        algo.items@.len() >= 2,
        algo.items@[0].item.operand2 is None,
        envs_get(env, algo.items@[0].item.operand1.name@) matches Some(v) && v matches
            OperandV::Cell(x) && x is Some,
        wire_chain_suffix(env, algo.items@, 1),
    ensures
        spec_algo_compute(reg, env, algo) matches Ok(t) && t.0 == OperandV::Cell(
            Some(
                chain_sum(
                    env,
                    algo.items@,
                    1,
                    cell_value_of(envs_get(env, algo.items@[0].item.operand1.name@)),
                ),
            ),
        ),
{
    let x0 = cell_value_of(envs_get(env, algo.items@[0].item.operand1.name@));
    assert(spec_item_compute(reg, env, &algo.items@[0].item) == Ok::<
        (OperandV, Seq<(Seq<char>, OperandV)>),
        SynthesisError,
    >((OperandV::Cell(Some(x0)), env)));
    lemma_chain_rest_left_fold(reg, env, algo.items@, 1, x0);
}

} // verus!
