//! Hashes and sizes of headers and transactions, which bitcoin computes over
//! their wire encoding, and the little-endian and length-prefixed encodings
//! that leaf preimages use.
use bitcoin::absolute::LockTime;
use bitcoin::hashes::Hash as _;
use bitcoin::transaction::Version;
use bitcoin::{
    Amount, OutPoint as BtcOutPoint, Sequence, Transaction as BtcTx, TxIn as BtcIn, TxOut as BtcOut,
    Txid,
};
use vstd::prelude::*;

use crate::types::{BlockHeader, Hash32, Transaction};

verus! {

/// What double SHA-256 gives for `data`.
pub uninterp spec fn sha256d_of(data: Seq<u8>) -> Seq<u8>;

/// Relies on bitcoin's `sha256d::Hash::hash`: SHA-256 applied twice, as 32 bytes.
#[verifier::external_body]
pub fn sha256d(data: &[u8]) -> (r: Hash32)
    ensures
        r@ == sha256d_of(data@),
{
    bitcoin::hashes::sha256d::Hash::hash(data).to_byte_array()
}

/// Little-endian bytes of a 32-bit integer.
pub open spec fn le32(x: u32) -> Seq<u8> {
    seq![x as u8, (x >> 8u32) as u8, (x >> 16u32) as u8, (x >> 24u32) as u8]
}

/// Little-endian bytes of a 64-bit integer.
pub open spec fn le64(x: u64) -> Seq<u8> {
    le32(x as u32) + le32((x >> 32u64) as u32)
}

/// The variable-length encoding of a count.
pub open spec fn compact_size(n: u64) -> Seq<u8> {
    if n < 0xfd {
        seq![n as u8]
    } else if n <= 0xffff {
        seq![0xfdu8, n as u8, (n >> 8u64) as u8]
    } else if n <= 0xffff_ffff {
        seq![0xfeu8] + le32(n as u32)
    } else {
        seq![0xffu8] + le64(n)
    }
}

/// A byte string preceded by its length.
pub open spec fn var_bytes(b: Seq<u8>) -> Seq<u8> {
    compact_size(b.len() as u64) + b
}

/// The txid of `tx`: double SHA-256 of its encoding without witnesses.
pub uninterp spec fn txid_of(tx: Transaction) -> Seq<u8>;

/// The wtxid of `tx`: double SHA-256 of its full encoding.
pub uninterp spec fn wtxid_of(tx: Transaction) -> Seq<u8>;

/// The length of the encoding of `tx` without witnesses.
pub uninterp spec fn base_size_of(tx: Transaction) -> nat;

/// The length of the full encoding of `tx`.
pub uninterp spec fn total_size_of(tx: Transaction) -> nat;

/// The hash of a block: double SHA-256 of its 80-byte header.
pub uninterp spec fn block_hash_of(h: BlockHeader) -> Seq<u8>;

impl Transaction {
    /// Relies on bitcoin's `Transaction::compute_txid`.
    #[verifier::external_body]
    pub fn compute_txid(&self) -> (r: Hash32)
        ensures
            r@ == txid_of(*self),
    {
        let tx = self;
        let t = BtcTx {
            version: Version(tx.version),
            lock_time: LockTime::from_consensus(tx.lock_time),
            input: tx.input.iter().map(|i| BtcIn {
                previous_output: BtcOutPoint::new(Txid::from_byte_array(i.previous_output.txid), i.previous_output.vout),
                script_sig: i.script_sig.clone().into(),
                sequence: Sequence(i.sequence),
                witness: i.witness.clone().into(),
            }).collect(),
            output: tx.output.iter().map(|o| BtcOut { value: Amount::from_sat(o.value), script_pubkey: o.script_pubkey.clone().into() }).collect(),
        };
        t.compute_txid().to_byte_array()
    }

    /// Relies on bitcoin's `Transaction::compute_wtxid`.
    #[verifier::external_body]
    pub fn compute_wtxid(&self) -> (r: Hash32)
        ensures
            r@ == wtxid_of(*self),
    {
        let tx = self;
        let t = BtcTx {
            version: Version(tx.version),
            lock_time: LockTime::from_consensus(tx.lock_time),
            input: tx.input.iter().map(|i| BtcIn {
                previous_output: BtcOutPoint::new(Txid::from_byte_array(i.previous_output.txid), i.previous_output.vout),
                script_sig: i.script_sig.clone().into(),
                sequence: Sequence(i.sequence),
                witness: i.witness.clone().into(),
            }).collect(),
            output: tx.output.iter().map(|o| BtcOut { value: Amount::from_sat(o.value), script_pubkey: o.script_pubkey.clone().into() }).collect(),
        };
        t.compute_wtxid().to_byte_array()
    }

    /// Relies on bitcoin's `Transaction::base_size`: bytes without witnesses.
    #[verifier::external_body]
    pub fn base_size(&self) -> (r: usize)
        ensures
            r == base_size_of(*self),
    {
        let tx = self;
        let t = BtcTx {
            version: Version(tx.version),
            lock_time: LockTime::from_consensus(tx.lock_time),
            input: tx.input.iter().map(|i| BtcIn {
                previous_output: BtcOutPoint::new(Txid::from_byte_array(i.previous_output.txid), i.previous_output.vout),
                script_sig: i.script_sig.clone().into(),
                sequence: Sequence(i.sequence),
                witness: i.witness.clone().into(),
            }).collect(),
            output: tx.output.iter().map(|o| BtcOut { value: Amount::from_sat(o.value), script_pubkey: o.script_pubkey.clone().into() }).collect(),
        };
        t.base_size()
    }

    /// Relies on bitcoin's `Transaction::total_size`: bytes with witnesses.
    #[verifier::external_body]
    pub fn total_size(&self) -> (r: usize)
        ensures
            r == total_size_of(*self),
    {
        let tx = self;
        let t = BtcTx {
            version: Version(tx.version),
            lock_time: LockTime::from_consensus(tx.lock_time),
            input: tx.input.iter().map(|i| BtcIn {
                previous_output: BtcOutPoint::new(Txid::from_byte_array(i.previous_output.txid), i.previous_output.vout),
                script_sig: i.script_sig.clone().into(),
                sequence: Sequence(i.sequence),
                witness: i.witness.clone().into(),
            }).collect(),
            output: tx.output.iter().map(|o| BtcOut { value: Amount::from_sat(o.value), script_pubkey: o.script_pubkey.clone().into() }).collect(),
        };
        t.total_size()
    }
}

impl BlockHeader {
    /// Relies on bitcoin's `Header::block_hash`.
    #[verifier::external_body]
    pub fn block_hash(&self) -> (r: Hash32)
        ensures
            r@ == block_hash_of(*self),
    {
        let h = bitcoin::block::Header {
            version: bitcoin::block::Version::from_consensus(self.version),
            prev_blockhash: bitcoin::BlockHash::from_byte_array(self.prev_blockhash),
            merkle_root: bitcoin::TxMerkleNode::from_byte_array(self.merkle_root),
            time: self.time,
            bits: bitcoin::CompactTarget::from_consensus(self.bits),
            nonce: self.nonce,
        };
        h.block_hash().to_byte_array()
    }
}

fn put_u32(out: &mut Vec<u8>, x: u32)
    ensures
        final(out)@ == old(out)@ + le32(x),
{
    let ghost start = out@;
    out.push(x as u8);
    out.push((x >> 8u32) as u8);
    out.push((x >> 16u32) as u8);
    out.push((x >> 24u32) as u8);
    assert(out@ =~= start + le32(x));
}

fn put_u64(out: &mut Vec<u8>, x: u64)
    ensures
        final(out)@ == old(out)@ + le64(x),
{
    let ghost start = out@;
    put_u32(out, x as u32);
    put_u32(out, (x >> 32u64) as u32);
    assert(out@ =~= start + le64(x));
}

fn put_compact_size(out: &mut Vec<u8>, n: u64)
    ensures
        final(out)@ == old(out)@ + compact_size(n),
{
    let ghost start = out@;
    if n < 0xfd {
        out.push(n as u8);
    } else if n <= 0xffff {
        out.push(0xfd);
        out.push(n as u8);
        out.push((n >> 8u64) as u8);
    } else if n <= 0xffff_ffff {
        out.push(0xfe);
        put_u32(out, n as u32);
    } else {
        out.push(0xff);
        put_u64(out, n);
    }
    assert(out@ =~= start + compact_size(n));
}

pub(crate) fn put_bytes(out: &mut Vec<u8>, b: &[u8])
    ensures
        final(out)@ == old(out)@ + b@,
{
    let ghost start = out@;
    let mut i: usize = 0;
    while i < b.len()
        invariant
            0 <= i <= b@.len(),
            out@ == start + b@.subrange(0, i as int),
        decreases b@.len() - i,
    {
        out.push(b[i]);
        i = i + 1;
        assert(out@ =~= start + b@.subrange(0, i as int));
    }
    assert(b@.subrange(0, i as int) =~= b@);
}

pub(crate) fn put_var_bytes(out: &mut Vec<u8>, b: &[u8])
    ensures
        final(out)@ == old(out)@ + var_bytes(b@),
{
    let ghost start = out@;
    put_compact_size(out, b.len() as u64);
    put_bytes(out, b);
    assert(out@ =~= start + var_bytes(b@));
}

} // verus!
