//! Blocks, transactions and the errors that validation reports.
use vstd::prelude::*;

verus! {

/// A 32-byte hash, as it is serialized (little-endian for txids and block hashes).
pub type Hash32 = [u8; 32];

/// Reference to an output of an earlier transaction.
#[derive(Clone, Copy, Debug)]
pub struct OutPoint {
    pub txid: Hash32,
    pub vout: u32,
}

/// A transaction input.
#[derive(Clone, Debug)]
pub struct TxIn {
    pub previous_output: OutPoint,
    pub script_sig: Vec<u8>,
    pub sequence: u32,
    pub witness: Vec<Vec<u8>>,
}

/// A transaction output.
#[derive(Clone, Debug)]
pub struct TxOut {
    pub value: u64,
    pub script_pubkey: Vec<u8>,
}

/// A transaction.
#[derive(Clone, Debug)]
pub struct Transaction {
    pub version: i32,
    pub lock_time: u32,
    pub input: Vec<TxIn>,
    pub output: Vec<TxOut>,
}

/// The 80-byte header of a block.
#[derive(Clone, Copy, Debug)]
pub struct BlockHeader {
    pub version: i32,
    pub prev_blockhash: Hash32,
    pub merkle_root: Hash32,
    pub time: u32,
    pub bits: u32,
    pub nonce: u32,
}

/// A block: its header and its transactions, the coinbase first.
#[derive(Clone, Debug)]
pub struct Block {
    pub header: BlockHeader,
    pub txdata: Vec<Transaction>,
}

/// What is needed to spend an output created earlier.
#[derive(Clone, Debug)]
pub struct UtxoData {
    pub txout: TxOut,
    pub is_coinbase: bool,
    pub creation_height: u32,
    pub creation_time: u32,
    /// The hash of the block that created the output.
    pub creation_block_hash: Hash32,
}

/// Why a block was refused.
#[derive(Clone, Copy, Debug, PartialEq, Eq, Structural)]
pub enum BlockValidationErrors {
    BadMerkleRoot,
    BadBip34,
    BadWitnessCommitment,
    BlockTooBig,
    EmptyBlock,
    FirstTxIsNotCoinbase,
    InvalidCoinbase,
    BadCoinbaseOutValue,
    BadPoW,
    BIP94TimeWarp,
    EmptyInputs,
    EmptyOutputs,
    TransactionTooBig,
    UtxoNotFound,
    PrematureCoinbaseSpend,
    BadScript,
    NegativeFee,
    AmountOverflow,
    DuplicateInput,
    BadAccumulatorProof,
    UnspendableUTXO,
    PrevBlockNotFound,
    UnknownBlock,
    TooManyHeaders,
    BadDifficultyBits,
}

/// Two outpoints name the same output.
pub open spec fn same_outpoint(a: OutPoint, b: OutPoint) -> bool {
    a.txid@ == b.txid@ && a.vout == b.vout
}

/// The outpoint that a coinbase input refers to: all-zero txid, index `u32::MAX`.
pub open spec fn is_null_outpoint(o: OutPoint) -> bool {
    o.txid@ == Seq::new(32, |_i: int| 0u8) && o.vout == u32::MAX
}

/// A transaction is a coinbase when it has one input, spending the null outpoint.
pub open spec fn is_coinbase_spec(tx: Transaction) -> bool {
    tx.input@.len() == 1 && is_null_outpoint(tx.input@[0].previous_output)
}

/// Byte-wise equality of two hashes.
pub fn hash_eq(a: &Hash32, b: &Hash32) -> (r: bool)
    ensures
        r == (a@ == b@),
{
    let mut i: usize = 0;
    while i < 32
        invariant
            0 <= i <= 32,
            forall|j: int| 0 <= j < i ==> a@[j] == b@[j],
        decreases 32 - i,
    {
        if a[i] != b[i] {
            return false;
        }
        i = i + 1;
    }
    assert(a@ =~= b@);
    true
}

impl OutPoint {
    /// Whether two outpoints name the same output.
    pub fn same_as(&self, other: &OutPoint) -> (r: bool)
        ensures
            r == same_outpoint(*self, *other),
    {
        self.vout == other.vout && hash_eq(&self.txid, &other.txid)
    }

    /// Whether this is the outpoint a coinbase input spends.
    pub fn is_null(&self) -> (r: bool)
        ensures
            r == is_null_outpoint(*self),
    {
        let zero: Hash32 = [0u8; 32];
        assert(zero@ =~= Seq::new(32, |_i: int| 0u8));
        self.vout == u32::MAX && hash_eq(&self.txid, &zero)
    }
}

impl Transaction {
    /// Whether this transaction is a coinbase.
    pub fn is_coinbase(&self) -> (r: bool)
        ensures
            r == is_coinbase_spec(*self),
    {
        self.input.len() == 1 && self.input[0].previous_output.is_null()
    }
}

} // verus!
