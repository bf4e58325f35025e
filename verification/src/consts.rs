//! Shared configuration constants: attribute names, name prefixes, and the
//! fixed sizes of the circuit family.

use vstd::prelude::*;

verus! {

/// The bit size of a full field encoding.
pub const FILED_SIZE: usize = 255;

/// The bit size of a Merkle node message lane.
pub const L_MERKLE: usize = 255;

/// The hash domain of the Merkle tree.
pub const DOMAIN_MERKLECRH: &'static str = "domain_merklecrh";

/// The attribute marking a cell as an old/new value pair.
pub const ATTRIBUTE_VALUE: &'static str = "Value";

/// The attribute prefix marking a cell as part of a Merkle path.
pub const ATTRIBUTE_MERKLEPATH: &'static str = "MerklePath:";

/// The prefix of an old value's cell name.
pub const SIGN_OF_OLD_VALUE: &'static str = "old_";

/// The prefix of a new value's cell name.
pub const SIGN_OF_NEW_VALUE: &'static str = "new_";

/// The prefix of a magnitude cell name.
pub const SIGN_OF_MAGNITUDE: &'static str = "magnitude_";

/// The prefix of a sign cell name.
pub const SIGN_OF_SIGN: &'static str = "sign_";

/// The prefix under which a Merkle root is stored.
pub const SIGN_OF_ANCHOR: &'static str = "anchor_";

/// The suffix naming the x half of a dual public input.
pub const SIGN_OF_X: &'static str = "_x";

/// The suffix naming the y half of a dual public input.
pub const SIGN_OF_Y: &'static str = "_y";

/// The name tagging an algorithm as a pre-commitment constraint.
pub const SIGN_OF_CONSTRAINT: &'static str = "constraint";

/// The name tagging an algorithm as a post-commitment constraint.
pub const SIGN_OF_CONSTRAINT_COMMIT: &'static str = "constraint-commit";

} // verus!
