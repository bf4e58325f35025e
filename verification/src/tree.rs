//! The Merkle authentication path.
//!
//! A path of fixed depth is folded leaf to root; at each level the position
//! bit orders the running node and the sibling before the two-to-one hash.

use vstd::prelude::*;

use crate::bits::{
    concat_bits, lemma_bits_val_injective, lemma_val_bits_props, u128_to_bits, val_bits,
};
use crate::commit::{ExtractedCommitment, sinsemilla_hash, sinsemilla_hash_of};
use crate::field::{Fe, fe_from_u64};
use crate::registry::Registry;

verus! {

/// The depth of the authentication tree.
pub const MERKLE_DEPTH: usize = 32;

/// A node of the authentication tree: a field element.
#[derive(Debug)]
pub struct DomainMerkleHash(pub Fe);

/// A tree root.
#[derive(Debug)]
pub struct Anchor(pub Fe);

impl Clone for DomainMerkleHash {
    fn clone(&self) -> (r: Self)
        ensures
            r.0.val() == self.0.val(),
            r.0.wf() == self.0.wf(),
    {
        DomainMerkleHash(self.0.clone())
    }
}

/// The message hashed by one combine step: ten bits of the level, then the
/// bits of the left and the right child.
pub open spec fn spec_combine_msg(altitude: nat, left: nat, right: nat) -> Seq<bool> {
    val_bits(altitude, 10) + val_bits(left, 255) + val_bits(right, 255)
}

/// The two-to-one combine: the hash of the level and the two children in
/// the tree's domain, or zero where the hash has no value.
pub open spec fn spec_combine(domain: Seq<char>, altitude: nat, left: nat, right: nat) -> nat {
    match sinsemilla_hash_of(domain, spec_combine_msg(altitude, left, right)) {
        Some(h) => h,
        None => 0,
    }
}

impl DomainMerkleHash {
    /// The node's field element.
    pub fn value(&self) -> (r: &Fe)
        ensures
            r == &self.0,
    {
        &self.0
    }

    /// Wraps an extracted commitment as a leaf.
    pub fn from_cmx(cmx: &ExtractedCommitment) -> (r: Self)
        ensures
            r.0.val() == cmx.0.val(),
            r.0.wf() == cmx.0.wf(),
    {
        DomainMerkleHash(cmx.0.clone())
    }

    /// Reads a node from canonical bytes; `None` exactly outside the
    /// canonical range.
    pub fn from_bytes(bytes: &Vec<u8>) -> (r: Option<Self>)
        requires
            bytes@.len() == 32,
        ensures
            r is Some <==> crate::bits::bits_val(crate::bits::bytes_bits(bytes@))
                < crate::field::p_modulus(),
            r matches Some(n) ==> n.0.wf() && n.0.bytes@ == bytes@,
    {
        match crate::field::fe_from_bytes(bytes) {
            Some(f) => Some(DomainMerkleHash(f)),
            None => None,
        }
    }

    /// The canonical bytes.
    pub fn to_bytes(&self) -> (r: &Vec<u8>)
        ensures
            r@ == self.0.bytes@,
    {
        &self.0.bytes
    }

    /// The leaf of an empty subtree.
    pub fn empty_leaf() -> (r: Self)
        ensures
            r.0.wf(),
            r.0.val() == 2,
    {
        DomainMerkleHash(fe_from_u64(2))
    }

    /// One combine step: hashes the level and the ordered children in the
    /// domain the registry names for the tree, zero where the hash has no
    /// value.
    pub fn combine(reg: &Registry, altitude: u8, left: &Self, right: &Self) -> (r: Self)
        requires
            left.0.wf(),
            right.0.wf(),
        ensures
            r.0.wf(),
            r.0.val() == spec_combine(
                reg.spec_domain_name(crate::consts::DOMAIN_MERKLECRH@),
                altitude as nat,
                left.0.val(),
                right.0.val(),
            ),
    {
        let domain = reg.get_domain_name(crate::consts::DOMAIN_MERKLECRH);
        proof {
            vstd::arithmetic::power2::lemma2_to64();
            lemma_val_bits_props(altitude as nat, 10);
            lemma_val_bits_props(left.0.val(), 255);
            lemma_val_bits_props(right.0.val(), 255);
            crate::field::lemma_pow2_255_value();
        }
        let abits = u128_to_bits(altitude as u128, 10);
        let lbits = left.0.to_bits();
        let rbits = right.0.to_bits();
        proof {
            lemma_bits_val_injective(abits@, val_bits(altitude as nat, 10));
            lemma_bits_val_injective(lbits@, val_bits(left.0.val(), 255));
            lemma_bits_val_injective(rbits@, val_bits(right.0.val(), 255));
        }
        let msg = concat_bits(&concat_bits(&abits, &lbits), &rbits);
        match sinsemilla_hash(domain.as_str(), &msg) {
            Some(h) => DomainMerkleHash(h),
            None => DomainMerkleHash(fe_from_u64(0)),
        }
    }
}

impl Anchor {
    /// The root's field element.
    pub fn value(&self) -> (r: &Fe)
        ensures
            r == &self.0,
    {
        &self.0
    }

    /// Reads a root from canonical bytes; `None` exactly outside the
    /// canonical range.
    pub fn from_bytes(bytes: &Vec<u8>) -> (r: Option<Self>)
        requires
            bytes@.len() == 32,
        ensures
            r is Some <==> crate::bits::bits_val(crate::bits::bytes_bits(bytes@))
                < crate::field::p_modulus(),
            r matches Some(a) ==> a.0.wf() && a.0.bytes@ == bytes@,
    {
        match crate::field::fe_from_bytes(bytes) {
            Some(f) => Some(Anchor(f)),
            None => None,
        }
    }

    /// The canonical bytes.
    pub fn to_bytes(&self) -> (r: &Vec<u8>)
        ensures
            r@ == self.0.bytes@,
    {
        &self.0.bytes
    }
}

/// The reference root fold from level `k`: bit `k` of the position orders
/// the running node and the sibling, and the combine of each level feeds
/// the next.
pub open spec fn spec_merkle_root(
    domain: Seq<char>,
    position: u32,
    node: nat,
    path: Seq<nat>,
    k: int,
) -> nat
    decreases path.len() - k,
{
    if k < 0 || k >= path.len() {
        node
    } else {
        let next = if (position >> (k as u32)) & 1 == 0 {
            spec_combine(domain, k as nat, node, path[k])
        } else {
            spec_combine(domain, k as nat, path[k], node)
        };
        spec_merkle_root(domain, position, next, path, k + 1)
    }
}

/// A Merkle authentication path: a leaf position and one sibling per
/// level.
#[derive(Debug)]
pub struct MerklePath {
    pub position: u32,
    pub auth_path: Vec<DomainMerkleHash>,
}

impl MerklePath {
    /// Every sibling is canonical and the path has the tree's depth.
    pub open spec fn wf(&self) -> bool {
        self.auth_path@.len() == 32 && forall|i: int|
            0 <= i < self.auth_path@.len() ==> (#[trigger] self.auth_path@[i]).0.wf()
    }

    /// The sibling values, leaf level first.
    pub open spec fn spec_path_vals(&self) -> Seq<nat> {
        self.auth_path@.map_values(|h: DomainMerkleHash| h.0.val())
    }

    /// The position of the leaf.
    pub open spec fn spec_position(&self) -> u32 {
        self.position
    }

    /// Builds a path from a position and sibling nodes.
    pub fn from_parts(position: u32, auth_path: Vec<DomainMerkleHash>) -> (r: Self)
        requires
            auth_path@.len() == 32,
        ensures
            r.position == position,
            r.auth_path@ == auth_path@,
    {
        MerklePath { position, auth_path }
    }

    /// Builds a path from a position and sibling field elements.
    pub fn new(position: u32, auth_path: Vec<Fe>) -> (r: Self)
        requires
            auth_path@.len() == 32,
        ensures
            r.position == position,
            r.auth_path@.len() == 32,
            forall|i: int|
                0 <= i < 32 ==> (#[trigger] r.auth_path@[i]).0.bytes@ == auth_path@[i].bytes@,
    {
        let mut nodes: Vec<DomainMerkleHash> = Vec::new();
        let mut i: usize = 0;
        while i < auth_path.len()
            invariant
                i <= auth_path@.len(),
                auth_path@.len() == 32,
                nodes@.len() == i,
                forall|j: int| 0 <= j < i ==> (#[trigger] nodes@[j]).0.bytes@
                    == auth_path@[j].bytes@,
            decreases auth_path@.len() - i,
        {
            nodes.push(DomainMerkleHash(auth_path[i].clone()));
            i = i + 1;
        }
        MerklePath { position, auth_path: nodes }
    }

    /// The position.
    pub fn position(&self) -> (r: u32)
        ensures
            r == self.position,
    {
        self.position
    }

    /// The sibling nodes.
    pub fn auth_path(&self) -> (r: &Vec<DomainMerkleHash>)
        ensures
            r@ == self.auth_path@,
    {
        &self.auth_path
    }

    /// Folds the path over a leaf: at each level the position bit decides
    /// whether the running node stands left or right of the sibling, and
    /// the result is the tree's root. Equals the depth-many-step reference
    /// fold.
    pub fn root(&self, reg: &Registry, cmx: ExtractedCommitment) -> (r: Anchor)
        requires
            self.wf(),
            cmx.0.wf(),
        ensures
            r.0.wf(),
            r.0.val() == spec_merkle_root(
                reg.spec_domain_name(crate::consts::DOMAIN_MERKLECRH@),
                self.position,
                cmx.0.val(),
                self.spec_path_vals(),
                0,
            ),
    {
        let ghost domain = reg.spec_domain_name(crate::consts::DOMAIN_MERKLECRH@);
        let mut node = DomainMerkleHash(cmx.0);
        let mut k: usize = 0;
        while k < self.auth_path.len()
            invariant
                k <= self.auth_path@.len(),
                self.wf(),
                node.0.wf(),
                domain == reg.spec_domain_name(crate::consts::DOMAIN_MERKLECRH@),
                spec_merkle_root(domain, self.position, cmx.0.val(), self.spec_path_vals(), 0)
                    == spec_merkle_root(
                    domain,
                    self.position,
                    node.0.val(),
                    self.spec_path_vals(),
                    k as int,
                ),
            decreases self.auth_path@.len() - k,
        {
            let sibling = &self.auth_path[k];
            let bit = (self.position >> (k as u32)) & 1;
            let next = if bit == 0 {
                DomainMerkleHash::combine(reg, k as u8, &node, sibling)
            } else {
                DomainMerkleHash::combine(reg, k as u8, sibling, &node)
            };
            proof {
                assert(self.spec_path_vals()[k as int] == self.auth_path@[k as int].0.val());
            }
            node = next;
            k = k + 1;
        }
        Anchor(node.0)
    }
}

} // verus!
