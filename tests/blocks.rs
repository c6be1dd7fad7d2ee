use bitcoin::hashes::Hash as _;
use bitcoin::{absolute, transaction, Amount, ScriptBuf, Sequence, Witness};
use floresta_consensus::block_validation::MAX_BLOCK_WEIGHT;
use floresta_consensus::consensus::Consensus;
use floresta_consensus::merkle::merkle_root;
use floresta_consensus::params::{ChainParams, Network};
use floresta_consensus::script::FirstInstruction;
use floresta_consensus::script::{height_from_instruction, read_scriptint};
use floresta_consensus::tx_validation::UtxoSet;
use floresta_consensus::types::{
    Block, BlockHeader, BlockValidationErrors, OutPoint, Transaction, TxIn, TxOut, UtxoData,
};

fn tx_from(t: &bitcoin::Transaction) -> Transaction {
    Transaction {
        version: t.version.0,
        lock_time: t.lock_time.to_consensus_u32(),
        input: t
            .input
            .iter()
            .map(|i| TxIn {
                previous_output: OutPoint {
                    txid: i.previous_output.txid.to_byte_array(),
                    vout: i.previous_output.vout,
                },
                script_sig: i.script_sig.to_bytes(),
                sequence: i.sequence.0,
                witness: i.witness.to_vec(),
            })
            .collect(),
        output: t
            .output
            .iter()
            .map(|o| TxOut { value: o.value.to_sat(), script_pubkey: o.script_pubkey.to_bytes() })
            .collect(),
    }
}

fn block_from(b: &bitcoin::Block) -> Block {
    Block {
        header: BlockHeader {
            version: b.header.version.to_consensus(),
            prev_blockhash: b.header.prev_blockhash.to_byte_array(),
            merkle_root: b.header.merkle_root.to_byte_array(),
            time: b.header.time,
            bits: b.header.bits.to_consensus(),
            nonce: b.header.nonce,
        },
        txdata: b.txdata.iter().map(tx_from).collect(),
    }
}

fn consensus(network: Network) -> Consensus {
    Consensus { parameters: ChainParams::for_network(network) }
}

fn coinbase(script_sig: Vec<u8>, values: &[u64]) -> Transaction {
    Transaction {
        version: 1,
        lock_time: 0,
        input: vec![TxIn {
            previous_output: OutPoint { txid: [0u8; 32], vout: u32::MAX },
            script_sig,
            sequence: u32::MAX,
            witness: vec![],
        }],
        output: values
            .iter()
            .map(|v| TxOut { value: *v, script_pubkey: vec![0x51] })
            .collect(),
    }
}

fn spend(prev: OutPoint, values: &[u64]) -> Transaction {
    Transaction {
        version: 2,
        lock_time: 0,
        input: vec![TxIn { previous_output: prev, script_sig: vec![], sequence: 0, witness: vec![] }],
        output: values
            .iter()
            .map(|v| TxOut { value: *v, script_pubkey: vec![0x51] })
            .collect(),
    }
}

fn utxo(value: u64, is_coinbase: bool, creation_height: u32) -> UtxoData {
    UtxoData {
        txout: TxOut { value, script_pubkey: vec![0x51] },
        is_coinbase,
        creation_height,
        creation_time: 0,
        creation_block_hash: [0u8; 32],
    }
}

fn with_merkle_root(txdata: Vec<Transaction>) -> Block {
    let ids: Vec<[u8; 32]> = txdata.iter().map(|t| t.compute_txid()).collect();
    let root = merkle_root(ids).unwrap_or([0u8; 32]);
    Block {
        header: BlockHeader {
            version: 4,
            prev_blockhash: [7u8; 32],
            merkle_root: root,
            time: 1_600_000_000,
            bits: 0x207f_ffff,
            nonce: 0,
        },
        txdata,
    }
}

fn outpoint(byte: u8, vout: u32) -> OutPoint {
    OutPoint { txid: [byte; 32], vout }
}

#[test]
fn genesis_hashes_match_bitcoin() {
    let genesis = bitcoin::blockdata::constants::genesis_block(bitcoin::Network::Bitcoin);
    let block = block_from(&genesis);
    assert_eq!(block.header.block_hash(), genesis.block_hash().to_byte_array());
    assert_eq!(block.txdata[0].compute_txid(), genesis.txdata[0].compute_txid().to_byte_array());
    assert!(block.check_merkle_root());
    assert!(block.check_witness_commitment());
    let weight = genesis.weight().to_wu();
    assert!(block.weight_within(weight));
    assert!(!block.weight_within(weight - 1));
}

#[test]
fn genesis_validates_without_accumulator() {
    let genesis = bitcoin::blockdata::constants::genesis_block(bitcoin::Network::Bitcoin);
    let block = block_from(&genesis);
    let c = consensus(Network::Bitcoin);
    assert_eq!(c.validate_block_no_acc(&block, 0, UtxoSet::new(), false), Ok(()));
}

#[test]
fn witness_commitment_and_weight_match_bitcoin() {
    let spender = bitcoin::Transaction {
        version: transaction::Version(2),
        lock_time: absolute::LockTime::ZERO,
        input: vec![bitcoin::TxIn {
            previous_output: bitcoin::OutPoint {
                txid: bitcoin::Txid::from_byte_array([3u8; 32]),
                vout: 1,
            },
            script_sig: ScriptBuf::new(),
            sequence: Sequence::MAX,
            witness: Witness::from_slice(&[vec![1u8, 2, 3], vec![4u8; 33]]),
        }],
        output: vec![bitcoin::TxOut {
            value: Amount::from_sat(1000),
            script_pubkey: ScriptBuf::from_bytes(vec![0x00, 0x14, 9, 9, 9, 9, 9, 9, 9, 9, 9, 9, 9, 9, 9, 9, 9, 9, 9, 9, 9, 9]),
        }],
    };
    let reserved = [0u8; 32];
    let mut cb = bitcoin::Transaction {
        version: transaction::Version(1),
        lock_time: absolute::LockTime::ZERO,
        input: vec![bitcoin::TxIn {
            previous_output: bitcoin::OutPoint::null(),
            script_sig: ScriptBuf::from_bytes(vec![0x01, 0x05]),
            sequence: Sequence::MAX,
            witness: Witness::from_slice(&[reserved.to_vec()]),
        }],
        output: vec![bitcoin::TxOut {
            value: Amount::from_sat(5_000_000_000),
            script_pubkey: ScriptBuf::from_bytes(vec![0x51]),
        }],
    };
    let mut block = bitcoin::Block {
        header: bitcoin::block::Header {
            version: bitcoin::block::Version::from_consensus(4),
            prev_blockhash: bitcoin::BlockHash::from_byte_array([1u8; 32]),
            merkle_root: bitcoin::TxMerkleNode::from_byte_array([0u8; 32]),
            time: 1_700_000_000,
            bits: bitcoin::CompactTarget::from_consensus(0x207f_ffff),
            nonce: 0,
        },
        txdata: vec![cb.clone(), spender.clone()],
    };
    let root = block.witness_root().unwrap();
    let commitment = bitcoin::Block::compute_witness_commitment(&root, &reserved);
    let mut script = vec![0x6a, 0x24, 0xaa, 0x21, 0xa9, 0xed];
    script.extend_from_slice(&commitment.to_byte_array());
    cb.output.push(bitcoin::TxOut { value: Amount::ZERO, script_pubkey: ScriptBuf::from_bytes(script) });
    block.txdata = vec![cb, spender];
    block.header.merkle_root = block.compute_merkle_root().unwrap();
    assert!(block.check_witness_commitment());
    assert!(block.check_merkle_root());

    let ours = block_from(&block);
    assert_eq!(ours.txdata[1].compute_wtxid(), block.txdata[1].compute_wtxid().to_byte_array());
    assert_eq!(ours.txdata[1].compute_txid(), block.txdata[1].compute_txid().to_byte_array());
    assert!(ours.check_merkle_root());
    assert!(ours.check_witness_commitment());
    let weight = block.weight().to_wu();
    assert!(ours.weight_within(weight));
    assert!(!ours.weight_within(weight - 1));

    // A changed commitment byte breaks the commitment.
    let mut bad = ours.clone();
    let last = bad.txdata[0].output.len() - 1;
    bad.txdata[0].output[last].script_pubkey[10] ^= 1;
    assert!(!bad.check_witness_commitment());
    let c = consensus(Network::Regtest);
    let mut table = UtxoSet::new();
    table.insert(ours.txdata[1].input[0].previous_output, utxo(2000, false, 0));
    assert_eq!(
        c.validate_block_no_acc(&bad, 5, table, false),
        Err(BlockValidationErrors::BadMerkleRoot)
    );
}

#[test]
fn coinbase_height_push_decodes() {
    let c = consensus(Network::Bitcoin);
    // 227_836 = 0x0379fc, pushed as three little-endian bytes.
    let block = with_merkle_root(vec![coinbase(vec![0x03, 0xfc, 0x79, 0x03, 0x00], &[1])]);
    assert_eq!(c.get_bip34_height(&block), Some(227_836));
    let op = with_merkle_root(vec![coinbase(vec![0x5a, 0x00], &[1])]);
    assert_eq!(c.get_bip34_height(&op), Some(10));
    assert_eq!(height_from_instruction(&FirstInstruction::Op(0x60)), Some(16));
    assert_eq!(height_from_instruction(&FirstInstruction::Op(0x61)), None);
    assert_eq!(height_from_instruction(&FirstInstruction::PushBytes(vec![0x80])), None);
    assert_eq!(height_from_instruction(&FirstInstruction::PushBytes(vec![0xff, 0x00])), Some(255));
    // A non-minimal push of a small number gives no height.
    let non_minimal = with_merkle_root(vec![coinbase(vec![0x01, 0x05, 0x00], &[1])]);
    assert_eq!(c.get_bip34_height(&non_minimal), None);
}

#[test]
fn bip34_height_must_match() {
    let c = consensus(Network::Bitcoin);
    let good = with_merkle_root(vec![coinbase(vec![0x03, 0xfc, 0x79, 0x03, 0x00], &[2_500_000_000])]);
    assert_eq!(c.validate_block_no_acc(&good, 227_836, UtxoSet::new(), false), Ok(()));
    let bad = with_merkle_root(vec![coinbase(vec![0x03, 0xfd, 0x79, 0x03, 0x00], &[2_500_000_000])]);
    assert_eq!(
        c.validate_block_no_acc(&bad, 227_836, UtxoSet::new(), false),
        Err(BlockValidationErrors::BadBip34)
    );
}

#[test]
fn coinbase_over_claim_is_rejected() {
    let c = consensus(Network::Regtest);
    assert_eq!(c.get_subsidy(1), 5_000_000_000);
    let over = with_merkle_root(vec![coinbase(vec![0x51, 0x00], &[5_000_000_001])]);
    assert_eq!(
        c.validate_block_no_acc(&over, 1, UtxoSet::new(), false),
        Err(BlockValidationErrors::BadCoinbaseOutValue)
    );
    let under = with_merkle_root(vec![coinbase(vec![0x51, 0x00], &[4_999_999_999])]);
    assert_eq!(c.validate_block_no_acc(&under, 1, UtxoSet::new(), false), Ok(()));
}

#[test]
fn coinbase_may_claim_fees() {
    let prev = outpoint(9, 0);
    let fee_tx = spend(prev, &[700]);
    let mut table = UtxoSet::new();
    table.insert(prev, utxo(1000, false, 1));
    let txs = vec![coinbase(vec![0x51, 0x00], &[5_000_000_000, 300]), fee_tx.clone()];
    assert_eq!(
        Consensus::verify_block_transactions(10, table.clone(), &txs, 5_000_000_000, false, 0),
        Ok(())
    );
    let txs = vec![coinbase(vec![0x51, 0x00], &[5_000_000_000, 301]), fee_tx];
    assert_eq!(
        Consensus::verify_block_transactions(10, table, &txs, 5_000_000_000, false, 0),
        Err(BlockValidationErrors::BadCoinbaseOutValue)
    );
}

#[test]
fn premature_coinbase_spend() {
    let c = consensus(Network::Regtest);
    let h: u32 = 500;
    let prev = outpoint(4, 0);
    for (created, expected) in [
        (h - 99, Err(BlockValidationErrors::PrematureCoinbaseSpend)),
        (h - 100, Ok(())),
    ] {
        let mut table = UtxoSet::new();
        table.insert(prev, utxo(1000, true, created));
        let block = with_merkle_root(vec![coinbase(vec![0x51, 0x00], &[1]), spend(prev, &[900])]);
        assert_eq!(c.validate_block_no_acc(&block, h, table, false), expected);
    }
}

#[test]
fn mutated_block_is_rejected() {
    let c = consensus(Network::Regtest);
    let prev = outpoint(5, 1);
    let honest = with_merkle_root(vec![coinbase(vec![0x51, 0x00], &[10]), spend(prev, &[900])]);
    let mut table = UtxoSet::new();
    table.insert(prev, utxo(1000, false, 1));
    assert_eq!(c.validate_block_no_acc(&honest, 7, table.clone(), false), Ok(()));
    let mut mutated = honest.clone();
    mutated.txdata[1].output[0].value = 800;
    assert_eq!(
        c.validate_block_no_acc(&mutated, 7, table.clone(), false),
        Err(BlockValidationErrors::BadMerkleRoot)
    );
    // Duplicating the last transaction keeps an odd tree's root but spends twice.
    let mut doubled = honest.clone();
    doubled.txdata.push(doubled.txdata[1].clone());
    assert!(!doubled.check_merkle_root());
    // The honest copy is still accepted afterwards.
    assert_eq!(c.validate_block_no_acc(&honest, 7, table, false), Ok(()));
}

#[test]
fn block_errors() {
    let c = consensus(Network::Regtest);
    let empty = with_merkle_root(vec![]);
    assert_eq!(
        c.validate_block_no_acc(&empty, 1, UtxoSet::new(), false),
        Err(BlockValidationErrors::BadMerkleRoot)
    );
    assert_eq!(
        Consensus::verify_block_transactions(1, UtxoSet::new(), &vec![], 50, false, 0),
        Err(BlockValidationErrors::EmptyBlock)
    );
    let not_cb = spend(outpoint(1, 0), &[1]);
    assert_eq!(
        Consensus::verify_block_transactions(1, UtxoSet::new(), &vec![not_cb], 50, false, 0),
        Err(BlockValidationErrors::FirstTxIsNotCoinbase)
    );
    let short = coinbase(vec![0x51], &[1]);
    assert_eq!(
        Consensus::verify_block_transactions(1, UtxoSet::new(), &vec![short], 50, false, 0),
        Err(BlockValidationErrors::InvalidCoinbase)
    );
    let long = coinbase(vec![0x51; 101], &[1]);
    assert_eq!(Consensus::verify_coinbase(&long), Err(BlockValidationErrors::InvalidCoinbase));
    assert_eq!(Consensus::verify_coinbase(&coinbase(vec![0x51; 100], &[1])), Ok(()));
    let segwit_spend = Transaction {
        version: 2,
        lock_time: 0,
        input: vec![TxIn {
            previous_output: outpoint(8, 0),
            script_sig: vec![],
            sequence: 0,
            witness: vec![vec![1, 2, 3]],
        }],
        output: vec![TxOut { value: 1, script_pubkey: vec![0x51] }],
    };
    let uncommitted = with_merkle_root(vec![coinbase(vec![0x51, 0x00], &[1]), segwit_spend]);
    assert!(uncommitted.check_merkle_root());
    assert!(!uncommitted.check_witness_commitment());
    let mut spendable = UtxoSet::new();
    spendable.insert(outpoint(8, 0), utxo(5, false, 0));
    assert_eq!(
        c.validate_block_no_acc(&uncommitted, 1, spendable, false),
        Err(BlockValidationErrors::BadWitnessCommitment)
    );
    let huge = with_merkle_root(vec![Transaction {
        version: 1,
        lock_time: 0,
        input: coinbase(vec![0x51, 0x00], &[]).input,
        output: vec![TxOut { value: 0, script_pubkey: vec![0x6a; 1_000_001] }],
    }]);
    assert!(!huge.weight_within(MAX_BLOCK_WEIGHT));
    assert_eq!(
        c.validate_block_no_acc(&huge, 1, UtxoSet::new(), false),
        Err(BlockValidationErrors::BlockTooBig)
    );
}

#[test]
fn transaction_errors() {
    let prev = outpoint(2, 0);
    let mut table = UtxoSet::new();
    table.insert(prev, utxo(1000, false, 1));

    let mut no_inputs = spend(prev, &[1]);
    no_inputs.input.clear();
    assert_eq!(
        Consensus::verify_transaction(&no_inputs, &mut table.clone(), 10, false, 0),
        Err(BlockValidationErrors::EmptyInputs)
    );
    let no_outputs = spend(prev, &[]);
    assert_eq!(
        Consensus::verify_transaction(&no_outputs, &mut table.clone(), 10, false, 0),
        Err(BlockValidationErrors::EmptyOutputs)
    );
    let mut dup = spend(prev, &[1]);
    dup.input.push(dup.input[0].clone());
    assert_eq!(
        Consensus::verify_transaction(&dup, &mut table.clone(), 10, false, 0),
        Err(BlockValidationErrors::DuplicateInput)
    );
    let missing = spend(outpoint(3, 0), &[1]);
    assert_eq!(
        Consensus::verify_transaction(&missing, &mut table.clone(), 10, false, 0),
        Err(BlockValidationErrors::UtxoNotFound)
    );
    let greedy = spend(prev, &[1001]);
    assert_eq!(
        Consensus::verify_transaction(&greedy, &mut table.clone(), 10, false, 0),
        Err(BlockValidationErrors::NegativeFee)
    );
    let too_much = spend(prev, &[2_100_000_000_000_001]);
    assert_eq!(
        Consensus::verify_transaction(&too_much, &mut table.clone(), 10, false, 0),
        Err(BlockValidationErrors::AmountOverflow)
    );
    let mut rich = UtxoSet::new();
    rich.insert(prev, utxo(2_100_000_000_000_001, false, 1));
    assert_eq!(
        Consensus::verify_transaction(&spend(prev, &[1]), &mut rich, 10, false, 0),
        Err(BlockValidationErrors::AmountOverflow)
    );

    // A valid spend returns its totals and removes the entry.
    let mut t = table.clone();
    assert_eq!(Consensus::verify_transaction(&spend(prev, &[600, 100]), &mut t, 10, false, 0), Ok((1000, 700)));
    assert_eq!(t.len(), 0);
    // A second spend of the same output in the block finds nothing.
    let txs = vec![coinbase(vec![0x51, 0x00], &[1]), spend(prev, &[10]), spend(prev, &[10])];
    assert_eq!(
        Consensus::verify_block_transactions(10, table, &txs, 50, false, 0),
        Err(BlockValidationErrors::UtxoNotFound)
    );
}

#[test]
fn utxo_set_keeps_one_entry_per_outpoint() {
    let mut set = UtxoSet::new();
    set.insert(outpoint(1, 0), utxo(5, false, 1));
    set.insert(outpoint(1, 1), utxo(6, false, 1));
    set.insert(outpoint(1, 0), utxo(7, false, 1));
    assert_eq!(set.len(), 2);
    let mut t = set.clone();
    assert_eq!(Consensus::verify_transaction(&spend(outpoint(1, 0), &[7]), &mut t, 10, false, 0), Ok((7, 7)));
}

#[test]
fn header_link_and_pow() {
    let genesis = bitcoin::blockdata::constants::genesis_block(bitcoin::Network::Bitcoin);
    let block = block_from(&genesis);
    assert_eq!(Consensus::check_pow(&block.header), Ok(()));
    let mut hard = block.header;
    hard.bits = 0x0300_0001;
    assert_eq!(Consensus::check_pow(&hard), Err(BlockValidationErrors::BadPoW));
    // An easy regtest target is met by almost any hash.
    let easy = with_merkle_root(vec![coinbase(vec![0x51, 0x00], &[1])]);
    assert_eq!(
        Consensus::check_pow(&easy.header).is_ok(),
        bitcoin::Target::from_compact(bitcoin::CompactTarget::from_consensus(easy.header.bits))
            .is_met_by(bitcoin::BlockHash::from_byte_array(easy.header.block_hash()))
    );

    let mut child = block.header;
    child.prev_blockhash = genesis.block_hash().to_byte_array();
    assert!(Consensus::check_link(&child, &block.header));
    assert!(!Consensus::check_link(&block.header, &child));
}

#[test]
fn script_numbers_match_bitcoin() {
    let mut cases: Vec<Vec<u8>> = vec![vec![]];
    for a in 0..=255u8 {
        cases.push(vec![a]);
        for b in 0..=255u8 {
            cases.push(vec![a, b]);
        }
        cases.push(vec![a, 0x12, 0x80]);
        cases.push(vec![0x01, a, 0x00, 0x80]);
        cases.push(vec![a, 0xff, 0xff, 0x7f]);
        cases.push(vec![a, 0, 0, 0, 1]);
    }
    for v in cases {
        assert_eq!(read_scriptint(&v), bitcoin::script::read_scriptint(&v).ok(), "{v:?}");
    }
}

#[test]
fn oversized_transaction_is_refused() {
    let prev = outpoint(2, 0);
    let mut table = UtxoSet::new();
    table.insert(prev, utxo(1000, false, 1));
    let mut big = spend(prev, &[1]);
    big.output[0].script_pubkey = vec![0x51; 1_000_000];
    assert_eq!(
        Consensus::verify_transaction(&big, &mut table, 10, false, 0),
        Err(BlockValidationErrors::TransactionTooBig)
    );
}
