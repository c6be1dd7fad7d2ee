//! Merkle trees over transaction hashes.
use bitcoin::hashes::Hash as _;
use bitcoin::TxMerkleNode;
use vstd::prelude::*;

use crate::types::Hash32;

verus! {

/// The root of bitcoin's Merkle tree over `leaves`: pairs hashed together
/// with double SHA-256, the last node of an odd level paired with itself;
/// none for no leaves.
pub uninterp spec fn merkle_root_of(leaves: Seq<Seq<u8>>) -> Option<Seq<u8>>;

/// The byte strings of a list of hashes.
pub open spec fn hash_views(v: Seq<Hash32>) -> Seq<Seq<u8>> {
    Seq::new(v.len(), |i: int| v[i]@)
}

/// Relies on bitcoin's `merkle_tree::calculate_root`: nothing for no
/// hashes, the hash itself for one.
#[verifier::external_body]
pub fn merkle_root(hashes: Vec<Hash32>) -> (r: Option<Hash32>)
    ensures
        match r {
            Some(h) => merkle_root_of(hash_views(hashes@)) == Some(h@),
            None => merkle_root_of(hash_views(hashes@)) is None,
        },
        hashes@.len() == 0 ==> r is None,
        hashes@.len() == 1 ==> r == Some(hashes@[0]),
{
    let nodes = hashes.into_iter().map(TxMerkleNode::from_byte_array);
    bitcoin::merkle_tree::calculate_root(nodes).map(|n| n.to_byte_array())
}

} // verus!
