//! The domain-constant registry.
//!
//! Generators, windowed tables, domain aliases and fixed-base descriptors
//! are configured once, before any synthesis, and read afterwards. The
//! registry is an explicit value handed around by reference; configuration
//! entries are name-keyed, and a later entry for a name wins.

use vstd::prelude::*;

use crate::domains::{DomainBaseField, DomainFullWidth, DomainShort, HashDomainsType};
use crate::field::{Fe, hash_to_curve_point, hash_to_curve_of};
use crate::string_eq_lit;

verus! {

/// The last value configured under a key, if any.
pub open spec fn alist_get<T>(s: Seq<(String, T)>, key: Seq<char>) -> Option<T>
    decreases s.len(),
{
    if s.len() == 0 {
        None
    } else if s.last().0@ == key {
        Some(s.last().1)
    } else {
        alist_get(s.drop_last(), key)
    }
}

/// Configuring a key answers lookups of that key and leaves others alone.
pub proof fn lemma_alist_get_push<T>(s: Seq<(String, T)>, entry: (String, T), key: Seq<char>)
    ensures
        alist_get(s.push(entry), key) == if entry.0@ == key {
            Some(entry.1)
        } else {
            alist_get(s, key)
        },
{
    assert(s.push(entry).drop_last() =~= s);
}

/// Finds the index of the winning entry for a key, scanning latest first.
pub(crate) fn alist_find_index<T>(v: &Vec<(String, T)>, key: &str) -> (r: Option<usize>)
    ensures
        match r {
            Some(i) => i < v@.len() && v@[i as int].0@ == key@ && alist_get(v@, key@) == Some(
                v@[i as int].1,
            ),
            None => alist_get(v@, key@) is None,
        },
{
    let mut i: usize = v.len();
    proof {
        assert(v@.take(v@.len() as int) =~= v@);
    }
    while i > 0
        invariant
            i <= v@.len(),
            alist_get(v@, key@) == alist_get(v@.take(i as int), key@),
        decreases i,
    {
        proof {
            assert(v@.take(i as int).drop_last() =~= v@.take(i as int - 1));
            assert(v@.take(i as int).last() == v@[i as int - 1]);
        }
        if string_eq_lit(&v[i - 1].0, key) {
            return Some(i - 1);
        }
        i = i - 1;
    }
    proof {
        assert(v@.take(0) =~= Seq::<(String, T)>::empty());
    }
    None
}

/// A precomputed windowed table: the `z` values and the flattened `u`
/// values, eight per window.
#[derive(Debug)]
pub struct ZsUs {
    pub zs: Vec<u64>,
    pub us: Vec<Fe>,
}

impl Clone for ZsUs {
    fn clone(&self) -> (r: Self)
        ensures
            r.zs@ == self.zs@,
            r.us@.len() == self.us@.len(),
            forall|i: int| 0 <= i < self.us@.len() ==> (#[trigger] r.us@[i]).bytes@
                == self.us@[i].bytes@,
    {
        let mut zs: Vec<u64> = Vec::new();
        let mut i: usize = 0;
        while i < self.zs.len()
            invariant
                i <= self.zs@.len(),
                zs@ =~= self.zs@.take(i as int),
            decreases self.zs@.len() - i,
        {
            zs.push(self.zs[i]);
            i = i + 1;
        }
        let mut us: Vec<Fe> = Vec::new();
        let mut j: usize = 0;
        while j < self.us.len()
            invariant
                j <= self.us@.len(),
                us@.len() == j,
                forall|k: int| 0 <= k < j ==> (#[trigger] us@[k]).bytes@ == self.us@[k].bytes@,
            decreases self.us@.len() - j,
        {
            us.push(self.us[j].clone());
            j = j + 1;
        }
        proof {
            assert(zs@ =~= self.zs@);
        }
        ZsUs { zs, us }
    }
}

/// What `find_zs_and_us` of the curve gadget crate returns for a base point
/// given by affine coordinates and a window count: the `z` of each window
/// and the canonical bytes of each window's eight `u` values, flattened in
/// order; `None` where the coordinates name no point or the search fails.
pub uninterp spec fn zs_us_of(x: Seq<u8>, y: Seq<u8>, num_windows: usize) -> Option<
    (Seq<u64>, Seq<Seq<u8>>),
>;

/// Relies on `halo2_gadgets::ecc::chip::find_zs_and_us`: a deterministic
/// search in the base point and the window count; `None` either when the
/// coordinates name no curve point or when the search finds nothing, both
/// functions of the arguments alone. Its window-table construction meets
/// the identity on a single window, so at least two are required.
#[verifier::external_body]
pub(crate) fn find_zs_and_us_raw(x: &Vec<u8>, y: &Vec<u8>, num_windows: usize) -> (r: Option<ZsUs>)
    requires
        x@.len() == 32,
        y@.len() == 32,
        num_windows >= 2,
    ensures
        r is Some <==> zs_us_of(x@, y@, num_windows) is Some,
        r matches Some(zu) ==> {
            &&& zs_us_of(x@, y@, num_windows) matches Some(t) && zu.zs@ == t.0
                && zu.us@.map_values(|f: Fe| f.bytes@) == t.1
            &&& forall|i: int| 0 <= i < zu.us@.len() ==> (#[trigger] zu.us@[i]).wf()
        },
{
    let fx: Option<pasta_curves::Fp> = ff::PrimeField::from_repr(x.as_slice().try_into().unwrap()).into();
    let fy: Option<pasta_curves::Fp> = ff::PrimeField::from_repr(y.as_slice().try_into().unwrap()).into();
    let base: Option<pasta_curves::EpAffine> =
        pasta_curves::arithmetic::CurveAffine::from_xy(fx?, fy?).into();
    let found = halo2_gadgets::ecc::chip::find_zs_and_us(base?, num_windows)?;
    let mut zs = Vec::new();
    let mut us = Vec::new();
    for (z, ws) in found {
        zs.push(z);
        us.extend(ws.map(|w| Fe { bytes: ff::PrimeField::to_repr(&w).to_vec() }));
    }
    Some(ZsUs { zs, us })
}

/// The registry of per-domain constants.
pub struct Registry {
    pub generator_q: Vec<(String, Option<(Vec<u8>, Vec<u8>)>)>,
    pub generator_r: Vec<(String, Option<(Vec<u8>, Vec<u8>)>)>,
    pub zs_us: Vec<(String, Option<ZsUs>)>,
    pub zs_us_short: Vec<(String, Option<ZsUs>)>,
    pub domains: Vec<(String, String)>,
    pub base_points: Vec<(String, Vec<u8>)>,
    pub fixed_base_fulls: Vec<(String, DomainFullWidth)>,
    pub fixed_point_base_fields: Vec<(String, DomainBaseField)>,
    pub fixed_point_shorts: Vec<(String, DomainShort)>,
    pub commit_domains: Vec<HashDomainsType>,
}

impl Registry {
    /// The configured full-width descriptor for a name.
    pub open spec fn spec_fixedbasefull(&self, name: Seq<char>) -> Option<DomainFullWidth> {
        alist_get(self.fixed_base_fulls@, name)
    }

    /// The configured base-field descriptor for a name.
    pub open spec fn spec_fixedpointbasefield(&self, name: Seq<char>) -> Option<DomainBaseField> {
        alist_get(self.fixed_point_base_fields@, name)
    }

    /// The configured short descriptor for a name.
    pub open spec fn spec_fixedpointshort(&self, name: Seq<char>) -> Option<DomainShort> {
        alist_get(self.fixed_point_shorts@, name)
    }

    /// The configured windowed table for a domain.
    pub open spec fn spec_zs_us(&self, domain: Seq<char>) -> Option<Option<ZsUs>> {
        alist_get(self.zs_us@, domain)
    }

    /// The configured short-table entry for a domain.
    pub open spec fn spec_zs_us_short(&self, domain: Seq<char>) -> Option<Option<ZsUs>> {
        alist_get(self.zs_us_short@, domain)
    }

    /// The configured alias for a domain name.
    pub open spec fn spec_domain_name(&self, domain: Seq<char>) -> Seq<char> {
        match alist_get(self.domains@, domain) {
            Some(v) => v@,
            None => domain,
        }
    }

    /// An empty registry.
    pub fn new() -> (r: Registry)
        ensures
            r.generator_q@.len() == 0,
            r.generator_r@.len() == 0,
            r.zs_us@.len() == 0,
            r.zs_us_short@.len() == 0,
            r.domains@.len() == 0,
            r.base_points@.len() == 0,
            r.fixed_base_fulls@.len() == 0,
            r.fixed_point_base_fields@.len() == 0,
            r.fixed_point_shorts@.len() == 0,
            r.commit_domains@.len() == 0,
    {
        Registry {
            generator_q: Vec::new(),
            generator_r: Vec::new(),
            zs_us: Vec::new(),
            zs_us_short: Vec::new(),
            domains: Vec::new(),
            base_points: Vec::new(),
            fixed_base_fulls: Vec::new(),
            fixed_point_base_fields: Vec::new(),
            fixed_point_shorts: Vec::new(),
            commit_domains: Vec::new(),
        }
    }

    /// Declares a full-width fixed-base domain under a name.
    pub fn config_fixedbasefull(&mut self, name: &str, domain: &str, num_windows: usize)
        ensures
            final(self).fixed_base_fulls@.len() == old(self).fixed_base_fulls@.len() + 1,
            final(self).spec_fixedbasefull(name@) matches Some(d) && d.domain@ == domain@
                && d.num_windows == num_windows,
            forall|k: Seq<char>| k != name@ ==> final(self).spec_fixedbasefull(k) == old(
                self,
            ).spec_fixedbasefull(k),
            final(self).fixed_point_base_fields == old(self).fixed_point_base_fields,
            final(self).fixed_point_shorts == old(self).fixed_point_shorts,
            final(self).generator_q == old(self).generator_q,
            final(self).generator_r == old(self).generator_r,
            final(self).zs_us == old(self).zs_us,
            final(self).zs_us_short == old(self).zs_us_short,
            final(self).domains == old(self).domains,
            final(self).base_points == old(self).base_points,
            final(self).commit_domains == old(self).commit_domains,
    {
        let entry = (name.to_owned(), DomainFullWidth {
            domain: domain.to_owned(),
            num_windows,
        });
        proof {
            lemma_alist_get_push_all(old(self).fixed_base_fulls@, entry);
        }
        self.fixed_base_fulls.push(entry);
    }

    /// The full-width descriptor configured under a name.
    pub fn get_fixedbasefull(&self, name: &str) -> (r: Option<DomainFullWidth>)
        ensures
            r == self.spec_fixedbasefull(name@),
    {
        match alist_find_index(&self.fixed_base_fulls, name) {
            Some(i) => Some(self.fixed_base_fulls[i].1.clone()),
            None => None,
        }
    }

    /// Declares a base-field fixed-base domain under a name.
    pub fn config_fixedpointbasefield(&mut self, name: &str, domain: &str, num_windows: usize)
        ensures
            final(self).spec_fixedpointbasefield(name@) matches Some(d) && d.domain@ == domain@
                && d.num_windows == num_windows,
            forall|k: Seq<char>| k != name@ ==> final(self).spec_fixedpointbasefield(k) == old(
                self,
            ).spec_fixedpointbasefield(k),
            final(self).fixed_base_fulls == old(self).fixed_base_fulls,
            final(self).fixed_point_shorts == old(self).fixed_point_shorts,
            final(self).generator_q == old(self).generator_q,
            final(self).generator_r == old(self).generator_r,
            final(self).zs_us == old(self).zs_us,
            final(self).zs_us_short == old(self).zs_us_short,
            final(self).domains == old(self).domains,
            final(self).base_points == old(self).base_points,
            final(self).commit_domains == old(self).commit_domains,
    {
        let entry = (name.to_owned(), DomainBaseField {
            domain: domain.to_owned(),
            num_windows,
        });
        proof {
            lemma_alist_get_push_all(old(self).fixed_point_base_fields@, entry);
        }
        self.fixed_point_base_fields.push(entry);
    }

    /// The base-field descriptor configured under a name.
    pub fn get_fixedpointbasefield(&self, name: &str) -> (r: Option<DomainBaseField>)
        ensures
            r == self.spec_fixedpointbasefield(name@),
    {
        match alist_find_index(&self.fixed_point_base_fields, name) {
            Some(i) => Some(self.fixed_point_base_fields[i].1.clone()),
            None => None,
        }
    }

    /// Declares a short fixed-base domain under a name.
    pub fn config_fixedpointshort(&mut self, name: &str, domain: &str, num_windows_short: usize)
        ensures
            final(self).spec_fixedpointshort(name@) matches Some(d) && d.domain@ == domain@
                && d.num_windows_short == num_windows_short,
            forall|k: Seq<char>| k != name@ ==> final(self).spec_fixedpointshort(k) == old(
                self,
            ).spec_fixedpointshort(k),
            final(self).fixed_base_fulls == old(self).fixed_base_fulls,
            final(self).fixed_point_base_fields == old(self).fixed_point_base_fields,
            final(self).generator_q == old(self).generator_q,
            final(self).generator_r == old(self).generator_r,
            final(self).zs_us == old(self).zs_us,
            final(self).zs_us_short == old(self).zs_us_short,
            final(self).domains == old(self).domains,
            final(self).base_points == old(self).base_points,
            final(self).commit_domains == old(self).commit_domains,
    {
        let entry = (name.to_owned(), DomainShort {
            domain: domain.to_owned(),
            num_windows_short,
        });
        proof {
            lemma_alist_get_push_all(old(self).fixed_point_shorts@, entry);
        }
        self.fixed_point_shorts.push(entry);
    }

    /// The short descriptor configured under a name.
    pub fn get_fixedpointshort(&self, name: &str) -> (r: Option<DomainShort>)
        ensures
            r == self.spec_fixedpointshort(name@),
    {
        match alist_find_index(&self.fixed_point_shorts, name) {
            Some(i) => Some(self.fixed_point_shorts[i].1.clone()),
            None => None,
        }
    }

    /// Stores a `Q` generator, as affine coordinate bytes, for a domain.
    pub fn config_generator_q(&mut self, domain: &str, generator: Option<(Vec<u8>, Vec<u8>)>)
        ensures
            alist_get(final(self).generator_q@, domain@) matches Some(g) && g == generator,
            forall|k: Seq<char>| k != domain@ ==> alist_get(final(self).generator_q@, k)
                == alist_get(old(self).generator_q@, k),
            final(self).generator_r == old(self).generator_r,
            final(self).zs_us == old(self).zs_us,
            final(self).zs_us_short == old(self).zs_us_short,
            final(self).domains == old(self).domains,
            final(self).base_points == old(self).base_points,
            final(self).fixed_base_fulls == old(self).fixed_base_fulls,
            final(self).fixed_point_base_fields == old(self).fixed_point_base_fields,
            final(self).fixed_point_shorts == old(self).fixed_point_shorts,
            final(self).commit_domains == old(self).commit_domains,
    {
        let entry = (domain.to_owned(), generator);
        proof {
            lemma_alist_get_push_all(old(self).generator_q@, entry);
        }
        self.generator_q.push(entry);
    }

    /// Stores an `R` generator, as affine coordinate bytes, for a domain.
    pub fn config_generator_r(&mut self, domain: &str, generator: Option<(Vec<u8>, Vec<u8>)>)
        ensures
            alist_get(final(self).generator_r@, domain@) matches Some(g) && g == generator,
            forall|k: Seq<char>| k != domain@ ==> alist_get(final(self).generator_r@, k)
                == alist_get(old(self).generator_r@, k),
            final(self).generator_q == old(self).generator_q,
            final(self).zs_us == old(self).zs_us,
            final(self).zs_us_short == old(self).zs_us_short,
            final(self).domains == old(self).domains,
            final(self).base_points == old(self).base_points,
            final(self).fixed_base_fulls == old(self).fixed_base_fulls,
            final(self).fixed_point_base_fields == old(self).fixed_point_base_fields,
            final(self).fixed_point_shorts == old(self).fixed_point_shorts,
            final(self).commit_domains == old(self).commit_domains,
    {
        let entry = (domain.to_owned(), generator);
        proof {
            lemma_alist_get_push_all(old(self).generator_r@, entry);
        }
        self.generator_r.push(entry);
    }

    /// Stores an `R` generator for a domain; the plain generator of a domain
    /// is its `R` generator.
    pub fn config_generator(&mut self, domain: &str, generator: Option<(Vec<u8>, Vec<u8>)>)
        ensures
            alist_get(final(self).generator_r@, domain@) matches Some(g) && g == generator,
            forall|k: Seq<char>| k != domain@ ==> alist_get(final(self).generator_r@, k)
                == alist_get(old(self).generator_r@, k),
            final(self).generator_q == old(self).generator_q,
            final(self).zs_us == old(self).zs_us,
            final(self).zs_us_short == old(self).zs_us_short,
            final(self).domains == old(self).domains,
            final(self).base_points == old(self).base_points,
            final(self).fixed_base_fulls == old(self).fixed_base_fulls,
            final(self).fixed_point_base_fields == old(self).fixed_point_base_fields,
            final(self).fixed_point_shorts == old(self).fixed_point_shorts,
            final(self).commit_domains == old(self).commit_domains,
    {
        self.config_generator_r(domain, generator)
    }

    /// Whether a windowed table entry exists for a domain.
    pub fn is_exist_zs_and_us(&self, domain: &str) -> (r: bool)
        ensures
            r == (self.spec_zs_us(domain@) is Some),
    {
        alist_find_index(&self.zs_us, domain).is_some()
    }

    /// Whether a short windowed table entry exists for a domain.
    pub fn is_exist_zs_and_us_short(&self, domain: &str) -> (r: bool)
        ensures
            r == (self.spec_zs_us_short(domain@) is Some),
    {
        alist_find_index(&self.zs_us_short, domain).is_some()
    }

    /// Stores a windowed table for a domain.
    pub fn config_zs_and_us(&mut self, domain: &str, zs_and_us: Option<ZsUs>)
        ensures
            final(self).spec_zs_us(domain@) matches Some(z) && z == zs_and_us,
            forall|k: Seq<char>| k != domain@ ==> final(self).spec_zs_us(k) == old(
                self,
            ).spec_zs_us(k),
            final(self).zs_us_short == old(self).zs_us_short,
            final(self).generator_r == old(self).generator_r,
    {
        let entry = (domain.to_owned(), zs_and_us);
        proof {
            lemma_alist_get_push_all(old(self).zs_us@, entry);
        }
        self.zs_us.push(entry);
    }

    /// Stores a short windowed table for a domain.
    pub fn config_zs_and_us_short(&mut self, domain: &str, zs_and_us: Option<ZsUs>)
        ensures
            final(self).spec_zs_us_short(domain@) matches Some(z) && z == zs_and_us,
            forall|k: Seq<char>| k != domain@ ==> final(self).spec_zs_us_short(k) == old(
                self,
            ).spec_zs_us_short(k),
            final(self).zs_us == old(self).zs_us,
            final(self).generator_r == old(self).generator_r,
    {
        let entry = (domain.to_owned(), zs_and_us);
        proof {
            lemma_alist_get_push_all(old(self).zs_us_short@, entry);
        }
        self.zs_us_short.push(entry);
    }

    /// Stores an alias for a domain name.
    pub fn config_domain_name(&mut self, domain: &str, value: &str)
        ensures
            final(self).spec_domain_name(domain@) == value@,
            forall|k: Seq<char>| k != domain@ ==> final(self).spec_domain_name(k) == old(
                self,
            ).spec_domain_name(k),
            final(self).generator_q == old(self).generator_q,
            final(self).generator_r == old(self).generator_r,
            final(self).zs_us == old(self).zs_us,
            final(self).zs_us_short == old(self).zs_us_short,
            final(self).base_points == old(self).base_points,
            final(self).fixed_base_fulls == old(self).fixed_base_fulls,
            final(self).fixed_point_base_fields == old(self).fixed_point_base_fields,
            final(self).fixed_point_shorts == old(self).fixed_point_shorts,
            final(self).commit_domains == old(self).commit_domains,
    {
        let entry = (domain.to_owned(), value.to_owned());
        proof {
            lemma_alist_get_push_all(old(self).domains@, entry);
        }
        self.domains.push(entry);
    }

    /// The alias configured for a domain name, or the name itself.
    pub fn get_domain_name(&self, domain: &str) -> (r: String)
        ensures
            r@ == self.spec_domain_name(domain@),
    {
        match alist_find_index(&self.domains, domain) {
            Some(i) => self.domains[i].1.clone(),
            None => domain.to_owned(),
        }
    }

    /// Stores a base point encoding under a name.
    pub fn config_base_point(&mut self, name: &str, bp: &Vec<u8>)
        ensures
            alist_get(final(self).base_points@, name@) matches Some(b) && b@ == bp@,
            forall|k: Seq<char>| k != name@ ==> alist_get(final(self).base_points@, k)
                == alist_get(old(self).base_points@, k),
            final(self).generator_q == old(self).generator_q,
            final(self).generator_r == old(self).generator_r,
            final(self).zs_us == old(self).zs_us,
            final(self).zs_us_short == old(self).zs_us_short,
            final(self).domains == old(self).domains,
            final(self).fixed_base_fulls == old(self).fixed_base_fulls,
            final(self).fixed_point_base_fields == old(self).fixed_point_base_fields,
            final(self).fixed_point_shorts == old(self).fixed_point_shorts,
            final(self).commit_domains == old(self).commit_domains,
    {
        let entry = (name.to_owned(), bp.clone());
        proof {
            lemma_alist_get_push_all(old(self).base_points@, entry);
        }
        self.base_points.push(entry);
    }

    /// The base point stored under a name, or the hash-to-curve point of the
    /// name over the given input, which is then stored.
    pub fn get_base_point(&mut self, name: &str, h: &Vec<u8>) -> (r: Vec<u8>)
        ensures
            match alist_get(old(self).base_points@, name@) {
                Some(b) => r@ == b@ && *final(self) == *old(self),
                None => r@ == hash_to_curve_of(name@, h@) && (alist_get(
                    final(self).base_points@,
                    name@,
                ) matches Some(b) && b@ == r@),
            },
            forall|k: Seq<char>| k != name@ ==> alist_get(final(self).base_points@, k)
                == alist_get(old(self).base_points@, k),
            final(self).generator_q == old(self).generator_q,
            final(self).generator_r == old(self).generator_r,
            final(self).zs_us == old(self).zs_us,
            final(self).zs_us_short == old(self).zs_us_short,
            final(self).domains == old(self).domains,
            final(self).fixed_base_fulls == old(self).fixed_base_fulls,
            final(self).fixed_point_base_fields == old(self).fixed_point_base_fields,
            final(self).fixed_point_shorts == old(self).fixed_point_shorts,
            final(self).commit_domains == old(self).commit_domains,
    {
        match alist_find_index(&self.base_points, name) {
            Some(i) => self.base_points[i].1.clone(),
            None => {
                let p = hash_to_curve_point(name, h);
                let bytes = p.to_bytes().clone();
                let entry = (name.to_owned(), bytes.clone());
                proof {
                    lemma_alist_get_push_all(self.base_points@, entry);
                }
                self.base_points.push(entry);
                bytes
            },
        }
    }

    /// Queues a commitment domain for circuit configuration.
    pub fn add_commit_domain(&mut self, domain_name: &str, num_windows: usize)
        ensures
            final(self).commit_domains@.len() == old(self).commit_domains@.len() + 1,
            final(self).commit_domains@[0].domain@ == domain_name@,
            final(self).commit_domains@[0].num_windows == num_windows,
            final(self).commit_domains@[0].is_hash_domain == false,
            final(self).commit_domains@.skip(1) =~= old(self).commit_domains@,
            final(self).generator_q == old(self).generator_q,
            final(self).generator_r == old(self).generator_r,
            final(self).zs_us == old(self).zs_us,
            final(self).zs_us_short == old(self).zs_us_short,
            final(self).domains == old(self).domains,
            final(self).base_points == old(self).base_points,
            final(self).fixed_base_fulls == old(self).fixed_base_fulls,
            final(self).fixed_point_base_fields == old(self).fixed_point_base_fields,
            final(self).fixed_point_shorts == old(self).fixed_point_shorts,
    {
        let commit_domain = HashDomainsType {
            domain: domain_name.to_owned(),
            num_windows,
            is_hash_domain: false,
        };
        self.commit_domains.insert(0, commit_domain);
    }

    /// Takes the next queued commitment domain, oldest first.
    pub fn get_next_commit_domain(&mut self) -> (r: Option<HashDomainsType>)
        ensures
            old(self).commit_domains@.len() == 0 ==> r is None && *final(self) == *old(self),
            old(self).commit_domains@.len() > 0 ==> {
                &&& r == Some(old(self).commit_domains@.last())
                &&& final(self).commit_domains@ =~= old(self).commit_domains@.drop_last()
            },
            final(self).generator_q == old(self).generator_q,
            final(self).generator_r == old(self).generator_r,
            final(self).zs_us == old(self).zs_us,
            final(self).zs_us_short == old(self).zs_us_short,
            final(self).domains == old(self).domains,
            final(self).base_points == old(self).base_points,
            final(self).fixed_base_fulls == old(self).fixed_base_fulls,
            final(self).fixed_point_base_fields == old(self).fixed_point_base_fields,
            final(self).fixed_point_shorts == old(self).fixed_point_shorts,
    {
        if self.commit_domains.len() == 0 {
            None
        } else {
            let v = self.commit_domains.remove(self.commit_domains.len() - 1);
            Some(v)
        }
    }
}

/// Pushing an entry onto one list changes that list's lookups at one key
/// and no others.
pub proof fn lemma_alist_get_push_all<T>(s: Seq<(String, T)>, entry: (String, T))
    ensures
        alist_get(s.push(entry), entry.0@) == Some::<T>(entry.1),
        forall|k: Seq<char>| k != entry.0@ ==> alist_get(s.push(entry), k) == alist_get(s, k),
{
    lemma_alist_get_push(s, entry, entry.0@);
    assert forall|k: Seq<char>| k != entry.0@ implies alist_get(s.push(entry), k) == alist_get(
        s,
        k,
    ) by {
        lemma_alist_get_push(s, entry, k);
    }
}

} // verus!
