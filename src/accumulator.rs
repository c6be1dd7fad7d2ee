//! The Utreexo accumulator: which outputs a block adds as leaves, and how a
//! block changes the accumulator.
use bitcoin::hashes::Hash as _;
use rustreexo::node_hash::BitcoinNodeHash;
use rustreexo::proof::Proof as RProof;
use rustreexo::stump::Stump as RStump;
use vstd::prelude::*;

use crate::consensus::Consensus;
use crate::encode::{block_hash_of, le32, le64, put_bytes, put_var_bytes, txid_of, var_bytes};
use crate::tx_validation::UtxoSet;
use crate::types::{
    hash_eq, is_coinbase_spec, Block, BlockValidationErrors, Hash32, OutPoint, Transaction, TxOut, UtxoData,
};

verus! {

/// Leaves an accumulator holds roots for: one per set bit of the leaf count.
pub open spec fn ones(x: u64) -> nat
    decreases x,
{
    if x == 0 {
        0
    } else {
        (x % 2) as nat + ones(x / 2)
    }
}

/// The roots of a Utreexo forest and the number of leaves ever added.
/// An empty root, left by deletions, is `None`.
#[derive(Clone, Debug)]
pub struct Stump {
    pub leaves: u64,
    pub roots: Vec<Option<Hash32>>,
}

/// A batched inclusion proof: the positions of the leaves it proves and the
/// hashes needed to recompute the roots.
#[derive(Clone, Debug)]
pub struct Proof {
    pub targets: Vec<u64>,
    pub hashes: Vec<Hash32>,
}

/// The accumulator that rustreexo's `Stump::modify` gives after deleting
/// `dels` (proved by `proof`) and then adding `adds`; none where it refuses.
pub uninterp spec fn modify_of(acc: Stump, adds: Seq<Hash32>, dels: Seq<Hash32>, proof: Proof) -> Option<Stump>;

/// The most leaves a stump may have for a deletion to be checked: beyond
/// 2^61 leaves the forest has more than 61 rows, and the position arithmetic
/// of the proof check no longer fits in 64 bits.
pub const MAX_PROVABLE_LEAVES: u64 = 0x2000_0000_0000_0000;

/// Whether deleting `dels` from `acc` stays within the leaves a proof can address.
pub open spec fn deletion_in_range(acc: Stump, dels: Seq<Hash32>) -> bool {
    dels.len() == 0 || acc.leaves <= MAX_PROVABLE_LEAVES
}

/// Relies on rustreexo's `Stump::modify`. It refuses a stump whose roots do
/// not match its leaf count; on success the leaf count grows by the number of
/// additions; with nothing to add or delete it returns the stump unchanged.
/// With deletions it computes forest positions in 64 bits, which overflow
/// beyond 2^61 leaves.
#[verifier::external_body]
fn stump_modify(acc: &Stump, adds: &Vec<Hash32>, dels: &Vec<Hash32>, proof: &Proof) -> (r: Option<Stump>)
    requires
        deletion_in_range(*acc, dels@),
    ensures
        r == modify_of(*acc, adds@, dels@, *proof),
        (acc.roots@.len() <= u32::MAX && acc.roots@.len() != ones(acc.leaves)) ==> r is None,
        r is Some ==> r.unwrap().leaves == acc.leaves + adds@.len(),
        (adds@.len() == 0 && dels@.len() == 0 && acc.roots@.len() == ones(acc.leaves) && acc.leaves
            < 0x8000_0000_0000_0000) ==> (r is Some && r.unwrap().leaves == acc.leaves
            && r.unwrap().roots@ == acc.roots@),
{
    let nodes = |v: &Vec<Hash32>| v.iter().map(|&h| BitcoinNodeHash::Some(h)).collect();
    let roots = acc.roots.iter().map(|h| h.map_or(BitcoinNodeHash::Empty, BitcoinNodeHash::Some));
    let s = RStump { leaves: acc.leaves, roots: roots.collect() };
    let p = RProof::new(proof.targets.clone(), nodes(&proof.hashes));
    let back = |n: &BitcoinNodeHash| match n {
        BitcoinNodeHash::Some(b) => Some(*b),
        _ => None,
    };
    let r = s.modify(&nodes(adds), &nodes(dels), &p).ok()?;
    Some(Stump { leaves: r.leaves, roots: r.roots.iter().map(back).collect() })
}

impl Stump {
    /// An accumulator with no leaves.
    pub fn new() -> (r: Stump)
        ensures
            r.leaves == 0,
            r.roots@.len() == 0,
    {
        Stump { leaves: 0, roots: Vec::new() }
    }

    /// Deletes `del_hashes`, proved by `proof`, then adds `adds`; `None` where
    /// the proof does not hold, the stump is malformed, or there are
    /// deletions from a stump of more than `MAX_PROVABLE_LEAVES` leaves.
    /// `self` is left as it was.
    pub fn modify(&self, adds: &Vec<Hash32>, del_hashes: &Vec<Hash32>, proof: &Proof) -> (r: Option<Stump>)
        ensures
            deletion_in_range(*self, del_hashes@) ==> r == modify_of(*self, adds@, del_hashes@, *proof),
            !deletion_in_range(*self, del_hashes@) ==> r is None,
            r is Some ==> r.unwrap().leaves == self.leaves + adds@.len(),
            (self.roots@.len() <= u32::MAX && self.roots@.len() != ones(self.leaves)) ==> r is None,
            (adds@.len() == 0 && del_hashes@.len() == 0 && self.roots@.len() == ones(self.leaves)
                && self.leaves < 0x8000_0000_0000_0000) ==> (r is Some && r.unwrap().leaves
                == self.leaves && r.unwrap().roots@ == self.roots@),
    {
        if del_hashes.len() > 0 && self.leaves > MAX_PROVABLE_LEAVES {
            return None;
        }
        stump_modify(self, adds, del_hashes, proof)
    }
}

/// The 64-byte tag that prefixes every leaf preimage: SHA-512 of "UtreexoV1".
pub open spec fn utreexo_tag() -> Seq<u8> {
    seq![
        0x5bu8, 0x83, 0x2d, 0xb8, 0xca, 0x26, 0xc2, 0x5b, 0xe1, 0xc5, 0x42, 0xd6, 0xcc, 0xed, 0xdd, 0xa8,
        0xc1, 0x45, 0x61, 0x5c, 0xff, 0x5c, 0x35, 0x72, 0x7f, 0xb3, 0x46, 0x26, 0x10, 0x80, 0x7e, 0x20,
        0xae, 0x53, 0x4d, 0xc3, 0xf6, 0x42, 0x99, 0x19, 0x99, 0x31, 0x77, 0x2e, 0x03, 0x78, 0x7d, 0x18,
        0x15, 0x6e, 0xb3, 0x15, 0x1e, 0x0e, 0xd1, 0xb3, 0x09, 0x8b, 0xdc, 0x84, 0x45, 0x86, 0x18, 0x85,
    ]
}

/// The tag as an array.
pub const UTREEXO_TAG_V1: [u8; 64] = [
    0x5b, 0x83, 0x2d, 0xb8, 0xca, 0x26, 0xc2, 0x5b, 0xe1, 0xc5, 0x42, 0xd6, 0xcc, 0xed, 0xdd, 0xa8,
    0xc1, 0x45, 0x61, 0x5c, 0xff, 0x5c, 0x35, 0x72, 0x7f, 0xb3, 0x46, 0x26, 0x10, 0x80, 0x7e, 0x20,
    0xae, 0x53, 0x4d, 0xc3, 0xf6, 0x42, 0x99, 0x19, 0x99, 0x31, 0x77, 0x2e, 0x03, 0x78, 0x7d, 0x18,
    0x15, 0x6e, 0xb3, 0x15, 0x1e, 0x0e, 0xd1, 0xb3, 0x09, 0x8b, 0xdc, 0x84, 0x45, 0x86, 0x18, 0x85,
];

/// The leaf of the coinbase output of block 91722, which the BIP30
/// exception left unspendable.
pub const UNSPENDABLE_BIP30_UTXO_91722: [u8; 32] = [
    0x84, 0xb3, 0xaf, 0x07, 0x83, 0xb4, 0x10, 0xb4, 0x56, 0x4c, 0x5d, 0x1f, 0x36, 0x18, 0x68, 0x55,
    0x9f, 0x7c, 0xf7, 0x7c, 0xfc, 0x65, 0xce, 0x2b, 0xe9, 0x51, 0x21, 0x03, 0x57, 0x02, 0x2f, 0xe3,
];

/// The leaf of the coinbase output of block 91812, which the BIP30
/// exception left unspendable.
pub const UNSPENDABLE_BIP30_UTXO_91812: [u8; 32] = [
    0xbc, 0x6b, 0x4b, 0xf7, 0xce, 0xbb, 0xd3, 0x3a, 0x18, 0xd6, 0xb0, 0xfe, 0x1f, 0x8e, 0xcc, 0x7a,
    0xa5, 0x40, 0x30, 0x83, 0xc3, 0x9e, 0xe3, 0x43, 0xb9, 0x85, 0xd5, 0x1f, 0xd0, 0x29, 0x5a, 0xd8,
];

/// Whether any of `del_hashes` is one of the two leaves that must stay unspent.
pub open spec fn has_unspendable(del_hashes: Seq<Hash32>) -> bool {
    exists|i: int|
        0 <= i < del_hashes.len() && (#[trigger] del_hashes[i]@ == UNSPENDABLE_BIP30_UTXO_91722@
            || del_hashes[i]@ == UNSPENDABLE_BIP30_UTXO_91812@)
}

/// What SHA-512/256 gives for `data`.
pub uninterp spec fn sha512_256_of(data: Seq<u8>) -> Seq<u8>;

/// Relies on bitcoin's `sha512_256::Hash::hash`: SHA-512/256 of the data, as 32 bytes.
#[verifier::external_body]
fn sha512_256(data: &[u8]) -> (r: Hash32)
    ensures
        r@ == sha512_256_of(data@),
{
    bitcoin::hashes::sha512_256::Hash::hash(data).to_byte_array()
}

/// Whether no one can ever spend an output with this script: it starts with
/// `OP_RETURN` or is longer than the 10,000 bytes a script may have.
pub open spec fn is_unspendable(script: Seq<u8>) -> bool {
    script.len() > 10_000 || (script.len() > 0 && script[0] == 0x6a)
}

/// The header code of a leaf: the height shifted left by one, its low bit
/// set for coinbase outputs.
pub open spec fn header_code(height: u32, is_coinbase: bool) -> u32 {
    (height << 1u32) | (if is_coinbase { 1u32 } else { 0u32 })
}

/// The bytes hashed into the leaf for output `vout` of the transaction
/// `txid`, created in the block `block_hash` at `height`.
pub open spec fn leaf_preimage_of(
    block_hash: Seq<u8>,
    txid: Seq<u8>,
    vout: u32,
    height: u32,
    is_coinbase: bool,
    out: TxOut,
) -> Seq<u8> {
    utreexo_tag() + utreexo_tag() + block_hash + txid + le32(vout) + le32(
        header_code(height, is_coinbase),
    ) + le64(out.value) + var_bytes(out.script_pubkey@)
}

/// The bytes hashed into the leaf for output `vout` of `tx`, created in the
/// block `block_hash` at `height`.
pub open spec fn leaf_preimage(tx: Transaction, vout: u32, height: u32, block_hash: Seq<u8>) -> Seq<u8> {
    leaf_preimage_of(block_hash, txid_of(tx), vout, height, is_coinbase_spec(tx), tx.output@[vout as int])
}

/// The leaf of the spent output `o`, from what is known of it.
pub open spec fn utxo_leaf(o: OutPoint, u: UtxoData) -> Seq<u8> {
    sha512_256_of(
        leaf_preimage_of(u.creation_block_hash@, o.txid@, o.vout, u.creation_height, u.is_coinbase, u.txout),
    )
}

/// The leaves of the spent outputs `entries`, in order.
pub open spec fn spent_leaves(entries: Seq<(OutPoint, UtxoData)>) -> Seq<Seq<u8>> {
    Seq::new(entries.len(), |i: int| utxo_leaf(entries[i].0, entries[i].1))
}

pub open spec fn leaf_of(tx: Transaction, vout: u32, height: u32, block_hash: Seq<u8>) -> Seq<u8> {
    sha512_256_of(leaf_preimage(tx, vout, height, block_hash))
}

/// Some input of `txs` spends output `vout` of the transaction `txid`.
pub open spec fn spent_in_block(txs: Seq<Transaction>, txid: Seq<u8>, vout: u32) -> bool {
    exists|i: int, k: int|
        0 <= i < txs.len() && 0 <= k < txs[i].input@.len() && (#[trigger] txs[i].input@[k]).previous_output.txid@
            == txid && txs[i].input@[k].previous_output.vout == vout
}

/// Output `j` of `txs[i]` becomes a leaf: it can be spent, and no
/// transaction of the same block spends it.
pub open spec fn output_added(txs: Seq<Transaction>, i: int, j: int) -> bool {
    !is_unspendable(txs[i].output@[j].script_pubkey@) && !spent_in_block(
        txs,
        txid_of(txs[i]),
        j as u32,
    )
}

/// The leaves of the first `n` outputs of `txs[i]`, in order.
pub open spec fn tx_adds(txs: Seq<Transaction>, i: int, n: nat, height: u32, block_hash: Seq<u8>) -> Seq<Seq<u8>>
    decreases n,
{
    if n == 0 {
        Seq::empty()
    } else {
        let prev = tx_adds(txs, i, (n - 1) as nat, height, block_hash);
        if output_added(txs, i, n - 1) {
            prev.push(leaf_of(txs[i], (n - 1) as u32, height, block_hash))
        } else {
            prev
        }
    }
}

/// The leaves that the first `n` transactions of `txs` add, in order.
pub open spec fn block_adds(txs: Seq<Transaction>, n: nat, height: u32, block_hash: Seq<u8>) -> Seq<Seq<u8>>
    decreases n,
{
    if n == 0 {
        Seq::empty()
    } else {
        block_adds(txs, (n - 1) as nat, height, block_hash) + tx_adds(
            txs,
            n - 1,
            txs[n - 1].output@.len(),
            height,
            block_hash,
        )
    }
}

/// The leaves that the block adds, in order.
pub open spec fn adds_of(b: Block, height: u32) -> Seq<Seq<u8>> {
    block_adds(b.txdata@, b.txdata@.len(), height, block_hash_of(b.header))
}

/// The byte strings of a list of hashes.
pub open spec fn views_of(v: Seq<Hash32>) -> Seq<Seq<u8>> {
    Seq::new(v.len(), |i: int| v[i]@)
}

/// The leaves a block adds, as a set: the leaf of every output of every
/// transaction that is added.
pub open spec fn adds_set(txs: Seq<Transaction>, height: u32, block_hash: Seq<u8>) -> Set<Seq<u8>> {
    Set::new(
        |h: Seq<u8>|
            exists|i: int, j: int|
                0 <= i < txs.len() && 0 <= j < txs[i].output@.len() && #[trigger] output_added(txs, i, j)
                    && h == leaf_of(txs[i], j as u32, height, block_hash),
    )
}

proof fn lemma_tx_adds_members(txs: Seq<Transaction>, i: int, n: nat, height: u32, block_hash: Seq<u8>)
    requires
        0 <= i < txs.len(),
        n <= txs[i].output@.len(),
    ensures
        forall|h: Seq<u8>|
            tx_adds(txs, i, n, height, block_hash).contains(h) <==> exists|j: int|
                0 <= j < n && #[trigger] output_added(txs, i, j) && h == leaf_of(
                    txs[i],
                    j as u32,
                    height,
                    block_hash,
                ),
    decreases n,
{
    if n > 0 {
        lemma_tx_adds_members(txs, i, (n - 1) as nat, height, block_hash);
        let prev = tx_adds(txs, i, (n - 1) as nat, height, block_hash);
        assert forall|h: Seq<u8>|
            tx_adds(txs, i, n, height, block_hash).contains(h) <==> exists|j: int|
                0 <= j < n && #[trigger] output_added(txs, i, j) && h == leaf_of(
                    txs[i],
                    j as u32,
                    height,
                    block_hash,
                ) by {
            if tx_adds(txs, i, n, height, block_hash).contains(h) {
                if !prev.contains(h) {
                    let k = choose|k: int| 0 <= k < tx_adds(txs, i, n, height, block_hash).len()
                        && tx_adds(txs, i, n, height, block_hash)[k] == h;
                    assert(output_added(txs, i, n - 1));
                    assert(k == prev.len());
                }
            }
            if exists|j: int|
                0 <= j < n && #[trigger] output_added(txs, i, j) && h == leaf_of(
                    txs[i],
                    j as u32,
                    height,
                    block_hash,
                ) {
                let j = choose|j: int|
                    0 <= j < n && #[trigger] output_added(txs, i, j) && h == leaf_of(
                        txs[i],
                        j as u32,
                        height,
                        block_hash,
                    );
                if j == n - 1 {
                    assert(tx_adds(txs, i, n, height, block_hash).last() == h);
                } else {
                    assert(prev.contains(h));
                    let k = choose|k: int| 0 <= k < prev.len() && prev[k] == h;
                    assert(tx_adds(txs, i, n, height, block_hash)[k] == h);
                }
            }
        }
    }
}

proof fn lemma_block_adds_members(txs: Seq<Transaction>, n: nat, height: u32, block_hash: Seq<u8>)
    requires
        n <= txs.len(),
    ensures
        forall|h: Seq<u8>|
            block_adds(txs, n, height, block_hash).contains(h) <==> exists|i: int, j: int|
                0 <= i < n && 0 <= j < txs[i].output@.len() && #[trigger] output_added(txs, i, j)
                    && h == leaf_of(txs[i], j as u32, height, block_hash),
    decreases n,
{
    if n > 0 {
        lemma_block_adds_members(txs, (n - 1) as nat, height, block_hash);
        lemma_tx_adds_members(txs, n - 1, txs[n - 1].output@.len(), height, block_hash);
        let prev = block_adds(txs, (n - 1) as nat, height, block_hash);
        let last = tx_adds(txs, n - 1, txs[n - 1].output@.len(), height, block_hash);
        assert forall|h: Seq<u8>|
            block_adds(txs, n, height, block_hash).contains(h) <==> exists|i: int, j: int|
                0 <= i < n && 0 <= j < txs[i].output@.len() && #[trigger] output_added(txs, i, j)
                    && h == leaf_of(txs[i], j as u32, height, block_hash) by {
            let all = block_adds(txs, n, height, block_hash);
            assert(all == prev + last);
            if all.contains(h) {
                let k = choose|k: int| 0 <= k < all.len() && all[k] == h;
                if k < prev.len() {
                    assert(prev[k] == h);
                    assert(prev.contains(h));
                } else {
                    assert(last[k - prev.len()] == h);
                    assert(last.contains(h));
                }
            }
            if exists|i: int, j: int|
                0 <= i < n && 0 <= j < txs[i].output@.len() && #[trigger] output_added(txs, i, j)
                    && h == leaf_of(txs[i], j as u32, height, block_hash) {
                let (i, j) = choose|i: int, j: int|
                    0 <= i < n && 0 <= j < txs[i].output@.len() && #[trigger] output_added(txs, i, j)
                        && h == leaf_of(txs[i], j as u32, height, block_hash);
                if i < n - 1 {
                    assert(prev.contains(h));
                    let k = choose|k: int| 0 <= k < prev.len() && prev[k] == h;
                    assert(all[k] == h);
                } else {
                    assert(last.contains(h));
                    let k = choose|k: int| 0 <= k < last.len() && last[k] == h;
                    assert(all[prev.len() + k] == h);
                }
            }
        }
    }
}

/// The leaves a block adds are exactly the leaves of its added outputs.
pub proof fn lemma_block_adds_set(txs: Seq<Transaction>, height: u32, block_hash: Seq<u8>)
    ensures
        block_adds(txs, txs.len(), height, block_hash).to_set() == adds_set(txs, height, block_hash),
{
    lemma_block_adds_members(txs, txs.len(), height, block_hash);
    assert(block_adds(txs, txs.len(), height, block_hash).to_set() =~= adds_set(txs, height, block_hash));
}

/// Reordering the transactions of a block does not change the set of leaves
/// it adds: each leaf depends on its output and transaction alone.
pub proof fn lemma_adds_ignore_order(
    txs: Seq<Transaction>,
    other: Seq<Transaction>,
    height: u32,
    block_hash: Seq<u8>,
)
    requires
        txs.to_multiset() == other.to_multiset(),
    ensures
        block_adds(txs, txs.len(), height, block_hash).to_set() == block_adds(
            other,
            other.len(),
            height,
            block_hash,
        ).to_set(),
{
    txs.to_multiset_ensures();
    other.to_multiset_ensures();
    assert forall|t: Transaction| txs.contains(t) <==> other.contains(t) by {
        txs.to_multiset_ensures();
        other.to_multiset_ensures();
        assert(txs.to_multiset().count(t) == other.to_multiset().count(t));
        assert(txs.contains(t) <==> txs.to_multiset().count(t) > 0);
        assert(other.contains(t) <==> other.to_multiset().count(t) > 0);
    }
    lemma_spent_same(txs, other);
    lemma_spent_same(other, txs);
    lemma_adds_set_sub(txs, other, height, block_hash);
    lemma_adds_set_sub(other, txs, height, block_hash);
    lemma_block_adds_set(txs, height, block_hash);
    lemma_block_adds_set(other, height, block_hash);
    assert(adds_set(txs, height, block_hash) =~= adds_set(other, height, block_hash));
}

proof fn lemma_spent_same(txs: Seq<Transaction>, other: Seq<Transaction>)
    requires
        forall|t: Transaction| txs.contains(t) ==> other.contains(t),
    ensures
        forall|txid: Seq<u8>, vout: u32|
            #[trigger] spent_in_block(txs, txid, vout) ==> spent_in_block(other, txid, vout),
{
    assert forall|txid: Seq<u8>, vout: u32|
        #[trigger] spent_in_block(txs, txid, vout) implies spent_in_block(other, txid, vout) by {
        let (i, k) = choose|i: int, k: int|
            0 <= i < txs.len() && 0 <= k < txs[i].input@.len() && (#[trigger] txs[i].input@[k]).previous_output.txid@
                == txid && txs[i].input@[k].previous_output.vout == vout;
        assert(txs.contains(txs[i]));
        let i2 = choose|i2: int| 0 <= i2 < other.len() && other[i2] == txs[i];
        assert(other[i2].input@[k] == txs[i].input@[k]);
    }
}

proof fn lemma_adds_set_sub(txs: Seq<Transaction>, other: Seq<Transaction>, height: u32, block_hash: Seq<u8>)
    requires
        forall|t: Transaction| txs.contains(t) ==> other.contains(t),
        forall|txid: Seq<u8>, vout: u32|
            #[trigger] spent_in_block(other, txid, vout) ==> spent_in_block(txs, txid, vout),
    ensures
        adds_set(txs, height, block_hash).subset_of(adds_set(other, height, block_hash)),
{
    assert forall|h: Seq<u8>| adds_set(txs, height, block_hash).contains(h) implies adds_set(
        other,
        height,
        block_hash,
    ).contains(h) by {
        let (i, j) = choose|i: int, j: int|
            0 <= i < txs.len() && 0 <= j < txs[i].output@.len() && #[trigger] output_added(txs, i, j) && h
                == leaf_of(txs[i], j as u32, height, block_hash);
        assert(txs.contains(txs[i]));
        let i2 = choose|i2: int| 0 <= i2 < other.len() && other[i2] == txs[i];
        assert(output_added(other, i2, j));
    }
}

/// Whether any input of `txs` spends output `vout` of `txid`.
fn spends(txs: &Vec<Transaction>, txid: &Hash32, vout: u32) -> (r: bool)
    ensures
        r == spent_in_block(txs@, txid@, vout),
{
    let mut i: usize = 0;
    while i < txs.len()
        invariant
            0 <= i <= txs@.len(),
            forall|a: int, k: int|
                0 <= a < i && 0 <= k < txs@[a].input@.len() ==> !((#[trigger] txs@[a].input@[k]).previous_output.txid@
                    == txid@ && txs@[a].input@[k].previous_output.vout == vout),
        decreases txs@.len() - i,
    {
        let tx = &txs[i];
        let mut k: usize = 0;
        while k < tx.input.len()
            invariant
                0 <= i < txs@.len(),
                *tx == txs@[i as int],
                0 <= k <= tx.input@.len(),
                forall|a: int, k2: int|
                    0 <= a < i && 0 <= k2 < txs@[a].input@.len() ==> !((#[trigger] txs@[a].input@[k2]).previous_output.txid@
                        == txid@ && txs@[a].input@[k2].previous_output.vout == vout),
                forall|k2: int|
                    0 <= k2 < k ==> !((#[trigger] tx.input@[k2]).previous_output.txid@ == txid@
                        && tx.input@[k2].previous_output.vout == vout),
            decreases tx.input@.len() - k,
        {
            let prev = &tx.input[k].previous_output;
            if prev.vout == vout && hash_eq(&prev.txid, txid) {
                return true;
            }
            k = k + 1;
        }
        i = i + 1;
    }
    false
}

/// The leaf hash of output `vout` of `tx`.
fn leaf_hash(
    block_hash: &Hash32,
    txid: &Hash32,
    vout: u32,
    height: u32,
    is_coinbase: bool,
    out: &TxOut,
) -> (r: Hash32)
    ensures
        r@ == sha512_256_of(leaf_preimage_of(block_hash@, txid@, vout, height, is_coinbase, *out)),
{
    let mut buf: Vec<u8> = Vec::new();
    let ghost start = buf@;
    put_bytes(&mut buf, &UTREEXO_TAG_V1);
    put_bytes(&mut buf, &UTREEXO_TAG_V1);
    put_bytes(&mut buf, block_hash);
    put_bytes(&mut buf, txid);
    let code: u32 = (height << 1u32) | (if is_coinbase { 1u32 } else { 0u32 });
    let mut tail: Vec<u8> = Vec::new();
    tail.push(vout as u8);
    tail.push((vout >> 8u32) as u8);
    tail.push((vout >> 16u32) as u8);
    tail.push((vout >> 24u32) as u8);
    tail.push(code as u8);
    tail.push((code >> 8u32) as u8);
    tail.push((code >> 16u32) as u8);
    tail.push((code >> 24u32) as u8);
    let value = out.value;
    let lo = value as u32;
    let hi = (value >> 32u64) as u32;
    tail.push(lo as u8);
    tail.push((lo >> 8u32) as u8);
    tail.push((lo >> 16u32) as u8);
    tail.push((lo >> 24u32) as u8);
    tail.push(hi as u8);
    tail.push((hi >> 8u32) as u8);
    tail.push((hi >> 16u32) as u8);
    tail.push((hi >> 24u32) as u8);
    put_bytes(&mut buf, tail.as_slice());
    put_var_bytes(&mut buf, out.script_pubkey.as_slice());
    assert(UTREEXO_TAG_V1@ =~= utreexo_tag());
    assert(tail@ =~= le32(vout) + le32(header_code(height, is_coinbase)) + le64(value));
    assert(buf@ =~= leaf_preimage_of(block_hash@, txid@, vout, height, is_coinbase, *out));
    sha512_256(buf.as_slice())
}

/// The leaves that `block`, at `height` and with hash `block_hash`, adds to
/// the accumulator: every output that can be spent and that no transaction
/// of the same block spends, in block order.
pub fn get_block_adds(block: &Block, height: u32, block_hash: &Hash32) -> (r: Vec<Hash32>)
    ensures
        views_of(r@) == block_adds(block.txdata@, block.txdata@.len(), height, block_hash@),
{
    let txs = &block.txdata;
    let mut adds: Vec<Hash32> = Vec::new();
    let mut i: usize = 0;
    while i < txs.len()
        invariant
            0 <= i <= txs@.len(),
            views_of(adds@) == block_adds(txs@, i as nat, height, block_hash@),
        decreases txs@.len() - i,
    {
        let tx = &txs[i];
        let txid = tx.compute_txid();
        let mut j: usize = 0;
        while j < tx.output.len()
            invariant
                0 <= i < txs@.len(),
                *tx == txs@[i as int],
                txid@ == txid_of(*tx),
                0 <= j <= tx.output@.len(),
                views_of(adds@) == block_adds(txs@, i as nat, height, block_hash@) + tx_adds(
                    txs@,
                    i as int,
                    j as nat,
                    height,
                    block_hash@,
                ),
            decreases tx.output@.len() - j,
        {
            let ghost before = adds@;
            let spk = &tx.output[j].script_pubkey;
            let unspendable = spk.len() > 10_000 || (spk.len() > 0 && spk[0] == 0x6a);
            if !unspendable && !spends(txs, &txid, j as u32) {
                // Outputs are numbered in 32 bits.
                let vout = j as u32;
                let leaf = leaf_hash(block_hash, &txid, vout, height, tx.is_coinbase(), &tx.output[vout as usize]);
                adds.push(leaf);
                assert(views_of(adds@) =~= views_of(before).push(leaf@));
            }
            j = j + 1;
        }
        i = i + 1;
    }
    adds
}

/// The leaves of the outputs that `spent` records, in its order: what a
/// block that spends them deletes from the accumulator.
pub fn spent_leaf_hashes(spent: &UtxoSet) -> (r: Vec<Hash32>)
    ensures
        views_of(r@) == spent_leaves(spent.entries()),
{
    let mut leaves: Vec<Hash32> = Vec::new();
    let mut i: usize = 0;
    while i < spent.len()
        invariant
            0 <= i <= spent.entries().len(),
            leaves@.len() == i,
            forall|k: int|
                0 <= k < i ==> #[trigger] leaves@[k]@ == utxo_leaf(spent.entries()[k].0, spent.entries()[k].1),
        decreases spent.entries().len() - i,
    {
        let (o, u) = spent.entry(i);
        let leaf = leaf_hash(&u.creation_block_hash, &o.txid, o.vout, u.creation_height, u.is_coinbase, &u.txout);
        leaves.push(leaf);
        i = i + 1;
    }
    assert(views_of(leaves@) =~= spent_leaves(spent.entries()));
    leaves
}

impl Consensus {
    /// Whether any of `del_hashes` is one of the leaves that BIP30 made unspendable.
    pub fn contains_unspendable_utxo(del_hashes: &Vec<Hash32>) -> (r: bool)
        ensures
            r == has_unspendable(del_hashes@),
    {
        let mut i: usize = 0;
        while i < del_hashes.len()
            invariant
                0 <= i <= del_hashes@.len(),
                forall|j: int|
                    0 <= j < i ==> !(#[trigger] del_hashes@[j]@ == UNSPENDABLE_BIP30_UTXO_91722@
                        || del_hashes@[j]@ == UNSPENDABLE_BIP30_UTXO_91812@),
            decreases del_hashes@.len() - i,
        {
            if hash_eq(&del_hashes[i], &UNSPENDABLE_BIP30_UTXO_91722) || hash_eq(
                &del_hashes[i],
                &UNSPENDABLE_BIP30_UTXO_91812,
            ) {
                return true;
            }
            i = i + 1;
        }
        false
    }

    /// The accumulator after `block` at `height`: refused if it spends one of the
    /// unspendable leaves, else the block's deletions proved by `proof` and then
    /// its additions, which add one leaf for each. A deletion from a stump of
    /// more than `MAX_PROVABLE_LEAVES` leaves cannot be proved. `acc` itself is
    /// not changed.
    pub fn update_acc(acc: &Stump, block: &Block, height: u32, proof: Proof, del_hashes: Vec<Hash32>) -> (r: Result<
        Stump,
        BlockValidationErrors,
    >)
        ensures
            has_unspendable(del_hashes@) ==> r == Err::<Stump, BlockValidationErrors>(
                BlockValidationErrors::UnspendableUTXO,
            ),
            !has_unspendable(del_hashes@) && !deletion_in_range(*acc, del_hashes@) ==> r == Err::<
                Stump,
                BlockValidationErrors,
            >(BlockValidationErrors::BadAccumulatorProof),
            !has_unspendable(del_hashes@) && deletion_in_range(*acc, del_hashes@) ==> exists|
                adds: Seq<Hash32>,
            |
                views_of(adds) == adds_of(*block, height) && match modify_of(*acc, adds, del_hashes@, proof) {
                    Some(s) => r == Ok::<Stump, BlockValidationErrors>(s) && s.leaves == acc.leaves
                        + adds_of(*block, height).len(),
                    None => r == Err::<Stump, BlockValidationErrors>(
                        BlockValidationErrors::BadAccumulatorProof,
                    ),
                },
    {
        // A spend of an output that BIP30 made unspendable.
        if Self::contains_unspendable_utxo(&del_hashes) {
            return Err(BlockValidationErrors::UnspendableUTXO);
        }
        let block_hash = block.header.block_hash();
        let adds = get_block_adds(block, height, &block_hash);
        match acc.modify(&adds, &del_hashes, &proof) {
            Some(s) => Ok(s),
            None => Err(BlockValidationErrors::BadAccumulatorProof),
        }
    }
}

} // verus!
