//! Rules on a block as a whole.
use vstd::prelude::*;

use crate::params::{ChainParams, MAX_MONEY};
use crate::script::coinbase_height;
use crate::tx_validation::{
    coinbase_outcome, lemma_total_value_nonneg, sum_outputs, total_value, tx_outcome,
    UtxoSet,
};
use crate::encode::{
    base_size_of, compact_size, put_bytes, sha256d, sha256d_of, total_size_of, txid_of, wtxid_of,
};
use crate::consensus::{subsidy_at, Consensus};
use crate::merkle::{hash_views, merkle_root, merkle_root_of};
use crate::types::{
    hash_eq, is_coinbase_spec, Block, BlockValidationErrors, Hash32, OutPoint, Transaction, TxOut,
    UtxoData,
};

verus! {

/// The most weight a block may have.
pub const MAX_BLOCK_WEIGHT: u64 = 4_000_000;

/// The outcome of validating `block` at `height` against the spendable
/// outputs `table`, without the accumulator.
pub open spec fn block_outcome(
    params: ChainParams,
    block: Block,
    height: u32,
    table: Seq<(OutPoint, UtxoData)>,
) -> Result<(), BlockValidationErrors> {
    if merkle_root_of(txids_of(block.txdata@)) != Some(block.header.merkle_root@) {
        Err(BlockValidationErrors::BadMerkleRoot)
    } else if height >= params.bip34_height && coinbase_height(block) != Some(height) {
        Err(BlockValidationErrors::BadBip34)
    } else if !witness_commitment_ok(block.txdata@) {
        Err(BlockValidationErrors::BadWitnessCommitment)
    } else if block_weight(block) > MAX_BLOCK_WEIGHT {
        Err(BlockValidationErrors::BlockTooBig)
    } else {
        block_txs_outcome(
            table,
            block.txdata@,
            height,
            subsidy_at(params.subsidy_halving_interval as nat, height as nat) as u64,
        )
    }
}

/// The txids of `txs`.
pub open spec fn txids_of(txs: Seq<Transaction>) -> Seq<Seq<u8>> {
    Seq::new(txs.len(), |i: int| txid_of(txs[i]))
}

/// The leaves of the witness tree: 32 zero bytes for the coinbase, then the wtxids.
pub open spec fn witness_leaves(txs: Seq<Transaction>) -> Seq<Seq<u8>> {
    Seq::new(
        txs.len(),
        |i: int|
            if i == 0 {
                Seq::new(32, |_k: int| 0u8)
            } else {
                wtxid_of(txs[i])
            },
    )
}

/// Some input of some transaction carries witness data.
pub open spec fn has_witness_data(txs: Seq<Transaction>) -> bool {
    exists|i: int, k: int|
        0 <= i < txs.len() && 0 <= k < txs[i].input@.len() && #[trigger] txs[i].input@[k].witness@.len()
            > 0
}

/// The six bytes that open a witness commitment output.
pub open spec fn commitment_magic() -> Seq<u8> {
    seq![0x6au8, 0x24u8, 0xaau8, 0x21u8, 0xa9u8, 0xedu8]
}

pub open spec fn is_commitment_output(o: TxOut) -> bool {
    o.script_pubkey@.len() >= 38 && o.script_pubkey@.subrange(0, 6) == commitment_magic()
}

/// The position of the last output that holds a witness commitment.
pub open spec fn last_commitment(outs: Seq<TxOut>) -> Option<int>
    decreases outs.len(),
{
    if outs.len() == 0 {
        None
    } else if is_commitment_output(outs.last()) {
        Some(outs.len() - 1)
    } else {
        last_commitment(outs.drop_last())
    }
}

/// Whether the coinbase commits to the witnesses of the block, where any
/// transaction has some.
pub open spec fn witness_commitment_ok(txs: Seq<Transaction>) -> bool {
    if !has_witness_data(txs) {
        true
    } else if txs.len() == 0 || !is_coinbase_spec(txs[0]) {
        false
    } else {
        match last_commitment(txs[0].output@) {
            None => false,
            Some(p) => {
                let w = txs[0].input@[0].witness@;
                w.len() == 1 && w[0]@.len() == 32 && match merkle_root_of(witness_leaves(txs)) {
                    Some(root) => txs[0].output@[p].script_pubkey@.subrange(6, 38) == sha256d_of(
                        root + w[0]@,
                    ),
                    None => false,
                }
            },
        }
    }
}

/// Weight of the transactions: three times the size without witnesses plus
/// the full size, summed.
pub open spec fn txs_weight(txs: Seq<Transaction>) -> int
    decreases txs.len(),
{
    if txs.len() == 0 {
        0
    } else {
        txs_weight(txs.drop_last()) + 3 * base_size_of(txs.last()) + total_size_of(txs.last())
    }
}

/// Weight of a block: four units per byte of header and transaction count,
/// plus the weight of its transactions.
pub open spec fn block_weight(b: Block) -> int {
    4 * (80 + compact_size(b.txdata@.len() as u64).len()) + txs_weight(b.txdata@)
}

proof fn lemma_txs_weight_monotone(txs: Seq<Transaction>, n: int)
    requires
        0 <= n <= txs.len(),
    ensures
        0 <= txs_weight(txs.subrange(0, n)) <= txs_weight(txs),
    decreases txs.len(),
{
    if txs.len() > 0 {
        if n == txs.len() {
            assert(txs.subrange(0, n) =~= txs);
            lemma_txs_weight_monotone(txs.drop_last(), txs.len() - 1);
        } else {
            assert(txs.subrange(0, n) =~= txs.drop_last().subrange(0, n));
            lemma_txs_weight_monotone(txs.drop_last(), n);
        }
    }
}

fn compact_size_len(n: u64) -> (r: u64)
    ensures
        r == compact_size(n).len(),
{
    if n < 0xfd {
        1
    } else if n <= 0xffff {
        3
    } else if n <= 0xffff_ffff {
        5
    } else {
        9
    }
}

fn last_commitment_position(outs: &Vec<TxOut>) -> (r: Option<usize>)
    ensures
        match r {
            Some(p) => last_commitment(outs@) == Some(p as int) && p < outs@.len()
                && is_commitment_output(outs@[p as int]),
            None => last_commitment(outs@) is None,
        },
{
    let mut n: usize = outs.len();
    assert(outs@.subrange(0, n as int) =~= outs@);
    while n > 0
        invariant
            0 <= n <= outs@.len(),
            last_commitment(outs@) == last_commitment(outs@.subrange(0, n as int)),
        decreases n,
    {
        let ghost prefix = outs@.subrange(0, n as int);
        assert(prefix.last() == outs@[n - 1]);
        assert(prefix.drop_last() =~= outs@.subrange(0, n - 1));
        let spk = &outs[n - 1].script_pubkey;
        if spk.len() >= 38 && spk[0] == 0x6a && spk[1] == 0x24 && spk[2] == 0xaa && spk[3] == 0x21
            && spk[4] == 0xa9 && spk[5] == 0xed {
            assert(spk@.subrange(0, 6) =~= commitment_magic());
            return Some(n - 1);
        }
        proof {
            if spk@.len() >= 38 && spk@.subrange(0, 6) == commitment_magic() {
                assert(spk@.subrange(0, 6)[0] == spk@[0]);
                assert(spk@.subrange(0, 6)[1] == spk@[1]);
                assert(spk@.subrange(0, 6)[2] == spk@[2]);
                assert(spk@.subrange(0, 6)[3] == spk@[3]);
                assert(spk@.subrange(0, 6)[4] == spk@[4]);
                assert(spk@.subrange(0, 6)[5] == spk@[5]);
            }
        }
        n = n - 1;
    }
    assert(outs@.subrange(0, 0) =~= Seq::<TxOut>::empty());
    None
}

fn commitment_matches(spk: &Vec<u8>, expected: &Hash32) -> (r: bool)
    requires
        spk@.len() >= 38,
    ensures
        r == (spk@.subrange(6, 38) == expected@),
{
    let mut k: usize = 0;
    while k < 32
        invariant
            0 <= k <= 32,
            spk@.len() >= 38,
            forall|j: int| 0 <= j < k ==> spk@[6 + j] == expected@[j],
        decreases 32 - k,
    {
        if spk[6 + k] != expected[k] {
            assert(spk@.subrange(6, 38)[k as int] != expected@[k as int]);
            return false;
        }
        k = k + 1;
    }
    assert(spk@.subrange(6, 38) =~= expected@);
    true
}

fn block_has_witness(txs: &Vec<Transaction>) -> (r: bool)
    ensures
        r == has_witness_data(txs@),
{
    let mut i: usize = 0;
    while i < txs.len()
        invariant
            0 <= i <= txs@.len(),
            forall|a: int, k: int|
                0 <= a < i && 0 <= k < txs@[a].input@.len() ==> #[trigger] txs@[a].input@[k].witness@.len()
                    == 0,
        decreases txs@.len() - i,
    {
        let tx = &txs[i];
        let mut k: usize = 0;
        while k < tx.input.len()
            invariant
                0 <= i < txs@.len(),
                *tx == txs@[i as int],
                0 <= k <= tx.input@.len(),
                forall|a: int, k2: int|
                    0 <= a < i && 0 <= k2 < txs@[a].input@.len() ==> #[trigger] txs@[a].input@[k2].witness@.len()
                        == 0,
                forall|k2: int| 0 <= k2 < k ==> #[trigger] tx.input@[k2].witness@.len() == 0,
            decreases tx.input@.len() - k,
        {
            if tx.input[k].witness.len() > 0 {
                return true;
            }
            k = k + 1;
        }
        i = i + 1;
    }
    false
}

impl Block {
    /// Whether the header's Merkle root is the root of the tree over the txids.
    pub fn check_merkle_root(&self) -> (r: bool)
        ensures
            r == (merkle_root_of(txids_of(self.txdata@)) == Some(self.header.merkle_root@)),
    {
        let mut ids: Vec<Hash32> = Vec::new();
        let mut i: usize = 0;
        while i < self.txdata.len()
            invariant
                0 <= i <= self.txdata@.len(),
                ids@.len() == i,
                forall|k: int| 0 <= k < i ==> #[trigger] ids@[k]@ == txid_of(self.txdata@[k]),
            decreases self.txdata@.len() - i,
        {
            ids.push(self.txdata[i].compute_txid());
            i = i + 1;
        }
        assert(hash_views(ids@) =~= txids_of(self.txdata@));
        match merkle_root(ids) {
            Some(root) => hash_eq(&root, &self.header.merkle_root),
            None => false,
        }
    }

    /// Whether the coinbase commits to the witnesses of the block's
    /// transactions; a block without witness data needs no commitment.
    pub fn check_witness_commitment(&self) -> (r: bool)
        ensures
            r == witness_commitment_ok(self.txdata@),
    {
        if !block_has_witness(&self.txdata) {
            return true;
        }
        if self.txdata.len() == 0 || !self.txdata[0].is_coinbase() {
            return false;
        }
        let coinbase = &self.txdata[0];
        let pos = match last_commitment_position(&coinbase.output) {
            Some(p) => p,
            None => {
                return false;
            },
        };
        let witness = &coinbase.input[0].witness;
        if witness.len() != 1 || witness[0].len() != 32 {
            return false;
        }
        let mut leaves: Vec<Hash32> = Vec::new();
        leaves.push([0u8; 32]);
        let mut i: usize = 1;
        while i < self.txdata.len()
            invariant
                1 <= i <= self.txdata@.len(),
                leaves@.len() == i,
                leaves@[0]@ == Seq::new(32, |_k: int| 0u8),
                forall|k: int| 1 <= k < i ==> #[trigger] leaves@[k]@ == wtxid_of(self.txdata@[k]),
            decreases self.txdata@.len() - i,
        {
            leaves.push(self.txdata[i].compute_wtxid());
            i = i + 1;
        }
        assert(leaves@[0]@ =~= Seq::new(32, |_k: int| 0u8));
        assert(hash_views(leaves@) =~= witness_leaves(self.txdata@));
        let root = match merkle_root(leaves) {
            Some(h) => h,
            None => {
                return false;
            },
        };
        let mut buf: Vec<u8> = Vec::new();
        put_bytes(&mut buf, &root);
        put_bytes(&mut buf, witness[0].as_slice());
        let expected = sha256d(buf.as_slice());
        assert(buf@ =~= root@ + witness@[0]@);
        assert(expected@ == sha256d_of(root@ + witness@[0]@));
        commitment_matches(&coinbase.output[pos].script_pubkey, &expected)
    }

    /// Whether the block weighs no more than `limit`.
    pub fn weight_within(&self, limit: u64) -> (r: bool)
        requires
            limit <= MAX_BLOCK_WEIGHT,
        ensures
            r == (block_weight(*self) <= limit),
    {
        let head = 4 * (80 + compact_size_len(self.txdata.len() as u64));
        if head > limit {
            proof {
                lemma_txs_weight_monotone(self.txdata@, 0);
            }
            return false;
        }
        let mut acc: u64 = head;
        let mut i: usize = 0;
        while i < self.txdata.len()
            invariant
                0 <= i <= self.txdata@.len(),
                limit <= MAX_BLOCK_WEIGHT,
                head == 4 * (80 + compact_size(self.txdata@.len() as u64).len()),
                acc == head + txs_weight(self.txdata@.subrange(0, i as int)),
                acc <= limit,
            decreases self.txdata@.len() - i,
        {
            let base = self.txdata[i].base_size() as u64;
            let full = self.txdata[i].total_size() as u64;
            assert(self.txdata@.subrange(0, i + 1).drop_last() =~= self.txdata@.subrange(0, i as int));
            if base > limit || full > limit || acc + 3 * base + full > limit {
                proof {
                    lemma_txs_weight_monotone(self.txdata@, i + 1);
                }
                return false;
            }
            acc = acc + 3 * base + full;
            i = i + 1;
        }
        assert(self.txdata@.subrange(0, i as int) =~= self.txdata@);
        true
    }
}

/// Validates `txs[1..n]` in order against `table`: the fees collected and what
/// is left of the table, or the first rule broken.
pub open spec fn collect_fees(
    table: Seq<(OutPoint, UtxoData)>,
    txs: Seq<Transaction>,
    height: u32,
    n: nat,
) -> Result<(int, Seq<(OutPoint, UtxoData)>), BlockValidationErrors>
    decreases n,
{
    if n <= 1 {
        Ok((0, table))
    } else {
        match collect_fees(table, txs, height, (n - 1) as nat) {
            Err(e) => Err(e),
            Ok((fee, t)) => match tx_outcome(t, txs[n - 1], height) {
                Err(e) => Err(e),
                Ok((in_value, out_value, rest)) => {
                    if fee + (in_value - out_value) > MAX_MONEY {
                        Err(BlockValidationErrors::AmountOverflow)
                    } else {
                        Ok((fee + (in_value - out_value), rest))
                    }
                },
            },
        }
    }
}

/// The fees of all non-coinbase transactions of `txs`, as far as they validate.
pub open spec fn block_fees(table: Seq<(OutPoint, UtxoData)>, txs: Seq<Transaction>, height: u32) -> int {
    match collect_fees(table, txs, height, txs.len()) {
        Ok((fee, _)) => fee,
        Err(_) => 0,
    }
}

/// The outcome of checking the transactions of a block at `height` that
/// spends from `table` and may mint `subsidy`.
pub open spec fn block_txs_outcome(
    table: Seq<(OutPoint, UtxoData)>,
    txs: Seq<Transaction>,
    height: u32,
    subsidy: u64,
) -> Result<(), BlockValidationErrors> {
    if txs.len() == 0 {
        Err(BlockValidationErrors::EmptyBlock)
    } else if !is_coinbase_spec(txs[0]) {
        Err(BlockValidationErrors::FirstTxIsNotCoinbase)
    } else if coinbase_outcome(txs[0]) is Err {
        coinbase_outcome(txs[0])
    } else {
        match collect_fees(table, txs, height, txs.len()) {
            Err(e) => Err(e),
            Ok((fee, _)) => {
                let claimed = total_value(txs[0].output@);
                if claimed > MAX_MONEY {
                    Err(BlockValidationErrors::AmountOverflow)
                } else if fee + subsidy > MAX_MONEY {
                    Err(BlockValidationErrors::AmountOverflow)
                } else if claimed > fee + subsidy {
                    Err(BlockValidationErrors::BadCoinbaseOutValue)
                } else {
                    Ok(())
                }
            },
        }
    }
}

proof fn lemma_collect_fees_stops(
    table: Seq<(OutPoint, UtxoData)>,
    txs: Seq<Transaction>,
    height: u32,
    n: nat,
)
    requires
        1 <= n <= txs.len(),
        collect_fees(table, txs, height, n) is Err,
    ensures
        collect_fees(table, txs, height, txs.len()) == collect_fees(table, txs, height, n),
    decreases txs.len() - n,
{
    if n < txs.len() {
        lemma_collect_fees_stops(table, txs, height, n + 1);
    }
}

/// The fees collected so far are never negative and never exceed `MAX_MONEY`.
proof fn lemma_collect_fees_range(
    table: Seq<(OutPoint, UtxoData)>,
    txs: Seq<Transaction>,
    height: u32,
    n: nat,
)
    requires
        n <= txs.len(),
    ensures
        match collect_fees(table, txs, height, n) {
            Ok((fee, _)) => 0 <= fee <= MAX_MONEY,
            Err(_) => true,
        },
    decreases n,
{
    if n > 1 {
        lemma_collect_fees_range(table, txs, height, (n - 1) as nat);
    }
}

/// In an accepted block the coinbase claims no more than the subsidy plus the
/// fees; every fee is an input total minus an output total that is not
/// negative, and all the sums, the subsidy plus the fees among them, stay
/// within `MAX_MONEY`, so none of them wraps in 64 bits.
pub proof fn lemma_accepted_block_fees(
    table: Seq<(OutPoint, UtxoData)>,
    txs: Seq<Transaction>,
    height: u32,
    subsidy: u64,
)
    requires
        block_txs_outcome(table, txs, height, subsidy) is Ok,
    ensures
        0 <= block_fees(table, txs, height) <= MAX_MONEY,
        0 <= total_value(txs[0].output@) <= MAX_MONEY,
        total_value(txs[0].output@) <= subsidy + block_fees(table, txs, height),
        subsidy + block_fees(table, txs, height) <= MAX_MONEY,
{
    lemma_collect_fees_range(table, txs, height, txs.len());
    lemma_total_value_nonneg(txs[0].output@);
}

impl Consensus {
    /// Checks the transactions of a block: a coinbase first, every other
    /// transaction valid against `utxos`, and a coinbase that claims no more than
    /// `subsidy` plus the fees.
    ///
    /// Scripts are not executed: no script interpreter is linked, so
    /// `verify_script` and `flags` do not change the outcome.
    pub fn verify_block_transactions(
        height: u32,
        utxos: UtxoSet,
        transactions: &Vec<Transaction>,
        subsidy: u64,
        verify_script: bool,
        flags: u32,
    ) -> (r: Result<(), BlockValidationErrors>)
        requires
            utxos.wf(),
        ensures
            r == block_txs_outcome(utxos.entries(), transactions@, height, subsidy),
    {
        let mut remaining = utxos;
        if transactions.len() == 0 {
            return Err(BlockValidationErrors::EmptyBlock);
        }
        if !transactions[0].is_coinbase() {
            return Err(BlockValidationErrors::FirstTxIsNotCoinbase);
        }
        match Consensus::verify_coinbase(&transactions[0]) {
            Err(e) => {
                return Err(e);
            },
            Ok(()) => {},
        }
        let ghost table = remaining.entries();
        // Total fees that the miner can claim in the coinbase.
        let mut fee: u64 = 0;
        let mut n: usize = 1;
        while n < transactions.len()
            invariant
                1 <= n <= transactions@.len(),
                collect_fees(table, transactions@, height, n as nat) == Ok::<
                    (int, Seq<(OutPoint, UtxoData)>),
                    BlockValidationErrors,
                >((fee as int, remaining.entries())),
                fee <= MAX_MONEY,
                table == utxos.entries(),
                is_coinbase_spec(transactions@[0]),
                coinbase_outcome(transactions@[0]) is Ok,
            decreases transactions@.len() - n,
        {
            let ghost before = remaining.entries();
            match Consensus::verify_transaction(&transactions[n], &mut remaining, height, verify_script, flags) {
                Err(e) => {
                    assert(collect_fees(table, transactions@, height, (n + 1) as nat) == Err::<
                        (int, Seq<(OutPoint, UtxoData)>),
                        BlockValidationErrors,
                    >(e));
                    proof {
                        lemma_collect_fees_stops(table, transactions@, height, (n + 1) as nat);
                    }
                    return Err(e);
                },
                Ok((in_value, out_value)) => {
                    assert(collect_fees(table, transactions@, height, (n + 1) as nat) == (if fee + (
                    in_value - out_value) > MAX_MONEY {
                        Err(BlockValidationErrors::AmountOverflow)
                    } else {
                        Ok((fee + (in_value - out_value), remaining.entries()))
                    }));
                    if in_value - out_value > MAX_MONEY - fee {
                        proof {
                            lemma_collect_fees_stops(table, transactions@, height, (n + 1) as nat);
                        }
                        return Err(BlockValidationErrors::AmountOverflow);
                    }
                    fee = fee + (in_value - out_value);
                },
            }
            n = n + 1;
        }
        // The miner may not claim more than the subsidy plus the fees.
        let claimed = match sum_outputs(&transactions[0].output) {
            Some(v) => v,
            None => {
                return Err(BlockValidationErrors::AmountOverflow);
            },
        };
        // The reward the miner may claim is itself within the money supply.
        if subsidy > MAX_MONEY - fee {
            return Err(BlockValidationErrors::AmountOverflow);
        }
        if claimed > fee + subsidy {
            return Err(BlockValidationErrors::BadCoinbaseOutValue);
        }
        Ok(())
    }

    /// Validates a block without the accumulator: Merkle root, BIP34 height,
    /// witness commitment, weight, and the transactions against `inputs`.
    pub fn validate_block_no_acc(
        &self,
        block: &Block,
        height: u32,
        inputs: UtxoSet,
        verify_script: bool,
    ) -> (r: Result<(), BlockValidationErrors>)
        requires
            self.parameters.subsidy_halving_interval > 0,
            inputs.wf(),
        ensures
            r == block_outcome(self.parameters, *block, height, inputs.entries()),
    {
        if !block.check_merkle_root() {
            return Err(BlockValidationErrors::BadMerkleRoot);
        }
        // Once BIP34 is active, the coinbase must start with the height.
        if height >= self.parameters.bip34_height {
            match self.get_bip34_height(block) {
                Some(h) => {
                    if h != height {
                        return Err(BlockValidationErrors::BadBip34);
                    }
                },
                None => {
                    return Err(BlockValidationErrors::BadBip34);
                },
            }
        }
        if !block.check_witness_commitment() {
            return Err(BlockValidationErrors::BadWitnessCommitment);
        }
        if !block.weight_within(MAX_BLOCK_WEIGHT) {
            return Err(BlockValidationErrors::BlockTooBig);
        }
        let subsidy = self.get_subsidy(height);
        // Without a script interpreter no verification flags apply.
        let flags: u32 = 0;
        Consensus::verify_block_transactions(height, inputs, &block.txdata, subsidy, verify_script, flags)
    }
}

} // verus!
