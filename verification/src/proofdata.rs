//! The proof byte string.
//!
//! Creating and checking a proof belongs to the proving backend; the
//! library only carries the bytes.

use vstd::prelude::*;

verus! {

/// An opaque proof: the bytes the proving backend produced.
#[derive(Debug)]
pub struct Proof(pub Vec<u8>);

impl Proof {
    /// Wraps proof bytes as they are.
    pub fn new(bytes: Vec<u8>) -> (r: Self)
        ensures
            r.0 == bytes,
    {
        Proof(bytes)
    }

    /// The proof bytes.
    pub fn as_bytes(&self) -> (r: &Vec<u8>)
        ensures
            r@ == self.0@,
    {
        &self.0
    }
}

impl Clone for Proof {
    fn clone(&self) -> (r: Self)
        ensures
            r.0@ == self.0@,
    {
        Proof(self.0.clone())
    }
}

} // verus!
