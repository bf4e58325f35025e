//! Fixed-base domain descriptors.
//!
//! A fixed-base multiplication is described by the domain whose generator it
//! uses and the number of windows of its precomputed table; the three kinds
//! match the three scalar widths the gates accept.

use vstd::prelude::*;

verus! {

/// A full-width fixed-base multiplication domain.
#[derive(Debug)]
pub struct DomainFullWidth {
    pub domain: String,
    pub num_windows: usize,
}

/// A base-field-element fixed-base multiplication domain.
#[derive(Debug)]
pub struct DomainBaseField {
    pub domain: String,
    pub num_windows: usize,
}

/// A short signed fixed-base multiplication domain.
#[derive(Debug)]
pub struct DomainShort {
    pub domain: String,
    pub num_windows_short: usize,
}

/// The marker tying the three domain kinds together for the curve backend.
#[derive(Copy, Clone, Debug, Eq, PartialEq, Structural)]
pub struct DomainFixedBases;

impl Clone for DomainFullWidth {
    fn clone(&self) -> (r: Self)
        ensures
            r == *self,
    {
        DomainFullWidth { domain: self.domain.clone(), num_windows: self.num_windows }
    }
}

impl Clone for DomainBaseField {
    fn clone(&self) -> (r: Self)
        ensures
            r == *self,
    {
        DomainBaseField { domain: self.domain.clone(), num_windows: self.num_windows }
    }
}

impl Clone for DomainShort {
    fn clone(&self) -> (r: Self)
        ensures
            r == *self,
    {
        DomainShort { domain: self.domain.clone(), num_windows_short: self.num_windows_short }
    }
}

/// A commitment or hash domain: its name, its window count, and whether it
/// is used for plain hashing or for commitments.
#[derive(Debug)]
pub struct HashDomainsType {
    pub domain: String,
    pub num_windows: usize,
    pub is_hash_domain: bool,
}

impl Clone for HashDomainsType {
    fn clone(&self) -> (r: Self)
        ensures
            r == *self,
    {
        HashDomainsType {
            domain: self.domain.clone(),
            num_windows: self.num_windows,
            is_hash_domain: self.is_hash_domain,
        }
    }
}

} // verus!
