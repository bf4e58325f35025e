//! Per-domain generator points.
//!
//! Each hash or commitment domain owes its `Q` and `R` generators to a
//! hash-to-curve over the domain name; the registry caches them as affine
//! coordinate bytes and derives windowed tables from them on demand.

use vstd::prelude::*;

use crate::field::{Fe, Pt, pt_of_xy, pt_from_xy, pt_xy_decodes};
use crate::registry::{Registry, ZsUs, alist_get, zs_us_of, find_zs_and_us_raw};

verus! {

/// The affine coordinates of a hash domain's `Q` generator, as a function
/// of the domain name.
pub uninterp spec fn q_hash_gen_of(domain: Seq<char>) -> (Seq<u8>, Seq<u8>);

/// The affine coordinates of a commitment domain's `Q` generator.
pub uninterp spec fn q_commit_gen_of(domain: Seq<char>) -> (Seq<u8>, Seq<u8>);

/// The affine coordinates of a commitment domain's `R` generator.
pub uninterp spec fn r_gen_of(domain: Seq<char>) -> (Seq<u8>, Seq<u8>);

/// Relies on the sinsemilla primitives' `HashDomain::new(domain).Q()`: a
/// hash-to-curve of the domain name alone, here returned as canonical
/// affine coordinate bytes.
#[verifier::external_body]
fn q_hash_gen_raw(domain: &str) -> (r: (Vec<u8>, Vec<u8>))
    ensures
        r.0@ == q_hash_gen_of(domain@).0,
        r.1@ == q_hash_gen_of(domain@).1,
        r.0@.len() == 32,
        r.1@.len() == 32,
{
    let q = halo2_gadgets::sinsemilla::primitives::HashDomain::new(domain).Q();
    let c = pasta_curves::arithmetic::CurveAffine::coordinates(&group::Curve::to_affine(&q))
        .unwrap();
    (
        ff::PrimeField::to_repr(c.x()).to_vec(),
        ff::PrimeField::to_repr(c.y()).to_vec(),
    )
}

/// Relies on the sinsemilla primitives' `CommitDomain::new(domain).Q()`.
#[verifier::external_body]
fn q_commit_gen_raw(domain: &str) -> (r: (Vec<u8>, Vec<u8>))
    ensures
        r.0@ == q_commit_gen_of(domain@).0,
        r.1@ == q_commit_gen_of(domain@).1,
        r.0@.len() == 32,
        r.1@.len() == 32,
{
    let q = halo2_gadgets::sinsemilla::primitives::CommitDomain::new(domain).Q();
    let c = pasta_curves::arithmetic::CurveAffine::coordinates(&group::Curve::to_affine(&q))
        .unwrap();
    (
        ff::PrimeField::to_repr(c.x()).to_vec(),
        ff::PrimeField::to_repr(c.y()).to_vec(),
    )
}

/// Relies on the sinsemilla primitives' `CommitDomain::new(domain).R()`.
#[verifier::external_body]
fn r_gen_raw(domain: &str) -> (r: (Vec<u8>, Vec<u8>))
    ensures
        r.0@ == r_gen_of(domain@).0,
        r.1@ == r_gen_of(domain@).1,
        r.0@.len() == 32,
        r.1@.len() == 32,
{
    let p = halo2_gadgets::sinsemilla::primitives::CommitDomain::new(domain).R();
    let c = pasta_curves::arithmetic::CurveAffine::coordinates(&group::Curve::to_affine(&p))
        .unwrap();
    (
        ff::PrimeField::to_repr(c.x()).to_vec(),
        ff::PrimeField::to_repr(c.y()).to_vec(),
    )
}

/// The `Q` generator of a hash domain, as affine coordinate bytes.
pub fn create_generator_q_hash_domain(domain: &str) -> (r: (Vec<u8>, Vec<u8>))
    ensures
        r.0@ == q_hash_gen_of(domain@).0,
        r.1@ == q_hash_gen_of(domain@).1,
        r.0@.len() == 32,
        r.1@.len() == 32,
{
    q_hash_gen_raw(domain)
}

/// The `Q` generator of a commitment domain, as affine coordinate bytes.
pub fn create_generator_q_commit_domain(domain: &str) -> (r: (Vec<u8>, Vec<u8>))
    ensures
        r.0@ == q_commit_gen_of(domain@).0,
        r.1@ == q_commit_gen_of(domain@).1,
        r.0@.len() == 32,
        r.1@.len() == 32,
{
    q_commit_gen_raw(domain)
}

/// The `R` generator of a commitment domain, as affine coordinate bytes.
pub fn create_generator_r(domain: &str) -> (r: (Vec<u8>, Vec<u8>))
    ensures
        r.0@ == r_gen_of(domain@).0,
        r.1@ == r_gen_of(domain@).1,
        r.0@.len() == 32,
        r.1@.len() == 32,
{
    r_gen_raw(domain)
}

/// The `Q` generator of a hash domain. The affine round trip of the
/// coordinate bytes keeps them as they are, so this equals the created
/// generator.
pub fn generate_q_hash_domain(domain: &str) -> (r: (Vec<u8>, Vec<u8>))
    ensures
        r.0@ == q_hash_gen_of(domain@).0,
        r.1@ == q_hash_gen_of(domain@).1,
{
    create_generator_q_hash_domain(domain)
}

/// The `Q` generator of a commitment domain, as `generate_q_hash_domain`.
pub fn generate_q_commit_domain(domain: &str) -> (r: (Vec<u8>, Vec<u8>))
    ensures
        r.0@ == q_commit_gen_of(domain@).0,
        r.1@ == q_commit_gen_of(domain@).1,
{
    create_generator_q_commit_domain(domain)
}

/// The `R` generator of a commitment domain, as `generate_q_hash_domain`.
pub fn generate_r(domain: &str) -> (r: (Vec<u8>, Vec<u8>))
    ensures
        r.0@ == r_gen_of(domain@).0,
        r.1@ == r_gen_of(domain@).1,
{
    create_generator_r(domain)
}

impl Registry {
    /// The affine coordinate bytes of a domain's plain generator: the
    /// configured `R` generator, or the one derived from the domain name.
    pub open spec fn spec_generator_r_xy(&self, domain: Seq<char>) -> (Seq<u8>, Seq<u8>) {
        match alist_get(self.generator_r@, domain) {
            Some(Some(g)) => (g.0@, g.1@),
            _ => r_gen_of(domain),
        }
    }

    /// The domain's plain generator as affine coordinate bytes; computes
    /// the derived generator where none is configured.
    pub fn generator_xy(&self, domain: &str) -> (r: (Vec<u8>, Vec<u8>))
        ensures
            r.0@ == self.spec_generator_r_xy(domain@).0,
            r.1@ == self.spec_generator_r_xy(domain@).1,
    {
        let mut found: Option<(Vec<u8>, Vec<u8>)> = None;
        match crate::registry::alist_find_index(&self.generator_r, domain) {
            Some(i) => match &self.generator_r[i].1 {
                Some(g) => {
                    found = Some((g.0.clone(), g.1.clone()));
                },
                None => {},
            },
            None => {},
        }
        match found {
            Some(g) => g,
            None => r_gen_raw(domain),
        }
    }

    /// Whether the domain's generator coordinates name a curve point.
    pub open spec fn spec_gen_ok(&self, domain: Seq<char>) -> bool {
        let xy = self.spec_generator_r_xy(domain);
        xy.0.len() == 32 && xy.1.len() == 32 && pt_xy_decodes(xy.0, xy.1)
    }

    /// The encoding of the domain's generator point.
    pub open spec fn spec_gen_enc(&self, domain: Seq<char>) -> Seq<u8> {
        pt_of_xy(self.spec_generator_r_xy(domain).0, self.spec_generator_r_xy(domain).1)
    }

    /// The domain's plain generator as a point; `None` exactly where the
    /// configured coordinate bytes name no curve point.
    pub fn generator(&self, domain: &str) -> (r: Option<Pt>)
        ensures
            r is Some <==> self.spec_gen_ok(domain@),
            r matches Some(p) ==> p.wf() && p.enc() == self.spec_gen_enc(domain@),
    {
        let (x, y) = self.generator_xy(domain);
        if x.len() != 32 || y.len() != 32 {
            return None;
        }
        pt_from_xy(&x, &y)
    }

    /// The `z` column of a domain's windowed table, computing and caching
    /// the table where none is stored.
    pub fn z(&mut self, domain: &str, num_windows: usize) -> (r: Option<Vec<u64>>)
        requires
            num_windows >= 2,
        ensures
            match old(self).spec_zs_us(domain@) {
                Some(stored) => *final(self) == *old(self) && match stored {
                    Some(zu) => r matches Some(zs) && zs@ == zu.zs@,
                    None => r is None,
                },
                None => {
                    let xy = old(self).spec_generator_r_xy(domain@);
                    &&& (r is Some <==> xy.0.len() == 32 && xy.1.len() == 32 && zs_us_of(
                        xy.0,
                        xy.1,
                        num_windows,
                    ) is Some)
                    &&& (r matches Some(zs) ==> {
                        &&& final(self).spec_zs_us(domain@) matches Some(Some(zu)) && zu.zs@
                            == zs@
                        &&& zs_us_of(xy.0, xy.1, num_windows) matches Some(t) && zs@ == t.0
                    })
                },
            },
    {
        match crate::registry::alist_find_index(&self.zs_us, domain) {
            Some(i) => match &self.zs_us[i].1 {
                Some(zu) => Some(zu.clone().zs),
                None => None,
            },
            None => {
                let (x, y) = self.generator_xy(domain);
                if x.len() != 32 || y.len() != 32 {
                    return None;
                }
                match find_zs_and_us_raw(&x, &y, num_windows) {
                    Some(zu) => {
                        let out = zu.clone();
                        self.config_zs_and_us(domain, Some(zu));
                        Some(out.zs)
                    },
                    None => None,
                }
            },
        }
    }

    /// The `u` column of a domain's windowed table, flattened eight entries
    /// per window, computing and caching the table where none is stored.
    pub fn u(&mut self, domain: &str, num_windows: usize) -> (r: Option<Vec<Fe>>)
        requires
            num_windows >= 2,
        ensures
            match old(self).spec_zs_us(domain@) {
                Some(stored) => *final(self) == *old(self) && match stored {
                    Some(zu) => r matches Some(us) && us@.len() == zu.us@.len() && (forall|i: int|
                        0 <= i < us@.len() ==> (#[trigger] us@[i]).bytes@ == zu.us@[i].bytes@),
                    None => r is None,
                },
                None => {
                    let xy = old(self).spec_generator_r_xy(domain@);
                    &&& (r is Some <==> xy.0.len() == 32 && xy.1.len() == 32 && zs_us_of(
                        xy.0,
                        xy.1,
                        num_windows,
                    ) is Some)
                    &&& (r matches Some(us) ==> zs_us_of(xy.0, xy.1, num_windows) matches Some(t)
                        && us@.map_values(|f: Fe| f.bytes@) == t.1)
                },
            },
    {
        match crate::registry::alist_find_index(&self.zs_us, domain) {
            Some(i) => match &self.zs_us[i].1 {
                Some(zu) => Some(zu.clone().us),
                None => None,
            },
            None => {
                let (x, y) = self.generator_xy(domain);
                if x.len() != 32 || y.len() != 32 {
                    return None;
                }
                match find_zs_and_us_raw(&x, &y, num_windows) {
                    Some(zu) => {
                        let out = zu.clone();
                        self.config_zs_and_us(domain, Some(zu));
                        proof {
                            assert(out.us@.map_values(|f: Fe| f.bytes@) =~= zs_us_of(
                                old(self).spec_generator_r_xy(domain@).0,
                                old(self).spec_generator_r_xy(domain@).1,
                                num_windows,
                            ).unwrap().1);
                        }
                        Some(out.us)
                    },
                    None => None,
                }
            },
        }
    }

    /// As `z`, over the short-table cache.
    pub fn z_short(&mut self, domain: &str, num_windows_short: usize) -> (r: Option<Vec<u64>>)
        requires
            num_windows_short >= 2,
        ensures
            match old(self).spec_zs_us_short(domain@) {
                Some(stored) => *final(self) == *old(self) && match stored {
                    Some(zu) => r matches Some(zs) && zs@ == zu.zs@,
                    None => r is None,
                },
                None => {
                    let xy = old(self).spec_generator_r_xy(domain@);
                    &&& (r is Some <==> xy.0.len() == 32 && xy.1.len() == 32 && zs_us_of(
                        xy.0,
                        xy.1,
                        num_windows_short,
                    ) is Some)
                    &&& (r matches Some(zs) ==> {
                        &&& final(self).spec_zs_us_short(domain@) matches Some(Some(zu))
                            && zu.zs@ == zs@
                        &&& zs_us_of(xy.0, xy.1, num_windows_short) matches Some(t) && zs@ == t.0
                    })
                },
            },
    {
        match crate::registry::alist_find_index(&self.zs_us_short, domain) {
            Some(i) => match &self.zs_us_short[i].1 {
                Some(zu) => Some(zu.clone().zs),
                None => None,
            },
            None => {
                let (x, y) = self.generator_xy(domain);
                if x.len() != 32 || y.len() != 32 {
                    return None;
                }
                match find_zs_and_us_raw(&x, &y, num_windows_short) {
                    Some(zu) => {
                        let out = zu.clone();
                        self.config_zs_and_us_short(domain, Some(zu));
                        Some(out.zs)
                    },
                    None => None,
                }
            },
        }
    }

    /// As `u`, over the short-table cache.
    pub fn u_short(&mut self, domain: &str, num_windows_short: usize) -> (r: Option<Vec<Fe>>)
        requires
            num_windows_short >= 2,
        ensures
            match old(self).spec_zs_us_short(domain@) {
                Some(stored) => *final(self) == *old(self) && match stored {
                    Some(zu) => r matches Some(us) && us@.len() == zu.us@.len() && (forall|i: int|
                        0 <= i < us@.len() ==> (#[trigger] us@[i]).bytes@ == zu.us@[i].bytes@),
                    None => r is None,
                },
                None => {
                    let xy = old(self).spec_generator_r_xy(domain@);
                    &&& (r is Some <==> xy.0.len() == 32 && xy.1.len() == 32 && zs_us_of(
                        xy.0,
                        xy.1,
                        num_windows_short,
                    ) is Some)
                    &&& (r matches Some(us) ==> zs_us_of(xy.0, xy.1, num_windows_short)
                        matches Some(t) && us@.map_values(|f: Fe| f.bytes@) == t.1)
                },
            },
    {
        match crate::registry::alist_find_index(&self.zs_us_short, domain) {
            Some(i) => match &self.zs_us_short[i].1 {
                Some(zu) => Some(zu.clone().us),
                None => None,
            },
            None => {
                let (x, y) = self.generator_xy(domain);
                if x.len() != 32 || y.len() != 32 {
                    return None;
                }
                match find_zs_and_us_raw(&x, &y, num_windows_short) {
                    Some(zu) => {
                        let out = zu.clone();
                        self.config_zs_and_us_short(domain, Some(zu));
                        proof {
                            assert(out.us@.map_values(|f: Fe| f.bytes@) =~= zs_us_of(
                                old(self).spec_generator_r_xy(domain@).0,
                                old(self).spec_generator_r_xy(domain@).1,
                                num_windows_short,
                            ).unwrap().1);
                        }
                        Some(out.us)
                    },
                    None => None,
                }
            },
        }
    }
}

} // verus!
