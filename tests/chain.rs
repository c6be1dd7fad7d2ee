use bitcoin::hashes::Hash as _;
use floresta_consensus::accumulator::{
    get_block_adds, spent_leaf_hashes, Proof, Stump, UNSPENDABLE_BIP30_UTXO_91722, UNSPENDABLE_BIP30_UTXO_91812,
    UTREEXO_TAG_V1,
};
use floresta_consensus::consensus::Consensus;
use floresta_consensus::params::{ChainParams, Network};
use floresta_consensus::tx_validation::UtxoSet;
use floresta_consensus::types::{
    Block, BlockHeader, BlockValidationErrors, OutPoint, Transaction, TxIn, TxOut, UtxoData,
};

fn consensus(network: Network) -> Consensus {
    Consensus { parameters: ChainParams::for_network(network) }
}

fn header(time: u32, bits: u32) -> BlockHeader {
    BlockHeader {
        version: 4,
        prev_blockhash: [0u8; 32],
        merkle_root: [0u8; 32],
        time,
        bits,
        nonce: 0,
    }
}

#[test]
fn subsidy_boundaries() {
    let c = consensus(Network::Bitcoin);
    assert_eq!(c.get_subsidy(0), 5_000_000_000);
    assert_eq!(c.get_subsidy(209_999), 5_000_000_000);
    assert_eq!(c.get_subsidy(210_000), 2_500_000_000);
    assert_eq!(c.get_subsidy(13_440_000), 0);
    assert_eq!(c.get_subsidy(6_929_999), 1);
    assert_eq!(c.get_subsidy(6_930_000), 0);
}

#[test]
fn subsidy_halves_each_interval() {
    let c = consensus(Network::Bitcoin);
    for k in 0u32..64 {
        let h = k * 210_000;
        assert_eq!(c.get_subsidy(h), 5_000_000_000u64 >> k);
        assert_eq!(c.get_subsidy(h + 209_999), 5_000_000_000u64 >> k);
    }
    assert_eq!(c.get_subsidy(u32::MAX), 0);
    let regtest = consensus(Network::Regtest);
    assert_eq!(regtest.get_subsidy(149), 5_000_000_000);
    assert_eq!(regtest.get_subsidy(150), 2_500_000_000);
}

#[test]
fn bip94_time_clamp() {
    let parent = header(10_000, 0x1d00ffff);
    assert_eq!(Consensus::check_bip94_time(&header(9_400, 0), &parent), Ok(()));
    assert_eq!(
        Consensus::check_bip94_time(&header(9_399, 0), &parent),
        Err(BlockValidationErrors::BIP94TimeWarp)
    );
    assert_eq!(Consensus::check_bip94_time(&header(20_000, 0), &parent), Ok(()));
    // A parent younger than 600 seconds allows any time.
    assert_eq!(Consensus::check_bip94_time(&header(0, 0), &header(599, 0)), Ok(()));
}

#[test]
fn next_work_follows_bitcoin() {
    let params = ChainParams::for_network(Network::Bitcoin);
    let first = header(1_000_000, 0x1b04_04cb);
    let last = header(1_000_000 + 1_209_600 / 2, 0x1b00_ffff);
    let expected = bitcoin::CompactTarget::from_next_work_required(
        bitcoin::CompactTarget::from_consensus(0x1b00_ffff),
        604_800,
        bitcoin::Network::Bitcoin,
    )
    .to_consensus();
    let r = Consensus::calc_next_work_required(&last, &first, params);
    assert_eq!(r, expected);
    assert_ne!(r, 0x1b00_ffff);
    // A period that ends before it starts counts as a quarter of the target.
    let early = header(999_000, 0x1b00_ffff);
    let quarter = bitcoin::CompactTarget::from_next_work_required(
        bitcoin::CompactTarget::from_consensus(0x1b00_ffff),
        302_400,
        bitcoin::Network::Bitcoin,
    )
    .to_consensus();
    assert_eq!(Consensus::calc_next_work_required(&early, &first, params), quarter);
    // Regtest does not retarget.
    let regtest = ChainParams::for_network(Network::Regtest);
    assert_eq!(Consensus::calc_next_work_required(&last, &first, regtest), 0x1b00_ffff);
    // With BIP94 the first block's target is the base.
    let testnet4 = ChainParams::for_network(Network::Testnet4);
    let from_first = bitcoin::CompactTarget::from_next_work_required(
        bitcoin::CompactTarget::from_consensus(0x1b04_04cb),
        604_800,
        bitcoin::Network::Testnet4,
    )
    .to_consensus();
    assert_eq!(Consensus::calc_next_work_required(&last, &first, testnet4), from_first);
}

#[test]
fn params_per_network() {
    let main = ChainParams::for_network(Network::Bitcoin);
    assert_eq!(main.bip34_height, 227_836);
    assert_eq!(main.subsidy_halving_interval, 210_000);
    assert!(!main.enforce_bip94);
    assert!(ChainParams::for_network(Network::Testnet4).enforce_bip94);
    assert_eq!(ChainParams::for_network(Network::Regtest).subsidy_halving_interval, 150);
}

fn output_tx(scripts: Vec<Vec<u8>>, prev: OutPoint) -> Transaction {
    Transaction {
        version: 2,
        lock_time: 0,
        input: vec![TxIn { previous_output: prev, script_sig: vec![], sequence: 0, witness: vec![] }],
        output: scripts.into_iter().map(|s| TxOut { value: 1000, script_pubkey: s }).collect(),
    }
}

fn sample_block() -> Block {
    let cb = Transaction {
        version: 1,
        lock_time: 0,
        input: vec![TxIn {
            previous_output: OutPoint { txid: [0u8; 32], vout: u32::MAX },
            script_sig: vec![0x51, 0x00],
            sequence: u32::MAX,
            witness: vec![],
        }],
        output: vec![TxOut { value: 50, script_pubkey: vec![0x51] }],
    };
    let a = output_tx(vec![vec![0x51], vec![0x6a, 0x01, 0x02], vec![0x52]], OutPoint { txid: [1u8; 32], vout: 0 });
    let a_id = a.compute_txid();
    // Spends output 2 of `a` in the same block.
    let b = output_tx(vec![vec![0x53], vec![0x54; 10_001]], OutPoint { txid: a_id, vout: 2 });
    Block {
        header: BlockHeader {
            version: 4,
            prev_blockhash: [2u8; 32],
            merkle_root: [0u8; 32],
            time: 0,
            bits: 0,
            nonce: 0,
        },
        txdata: vec![cb, a, b],
    }
}

#[test]
fn block_adds_skip_unspendable_and_spent_outputs() {
    let block = sample_block();
    let hash = block.header.block_hash();
    let adds = get_block_adds(&block, 10, &hash);
    // coinbase:0, a:0, b:0; a:1 is OP_RETURN, a:2 is spent, b:1 is too long.
    assert_eq!(adds.len(), 3);
    assert_eq!(UTREEXO_TAG_V1[0], 0x5b);
    assert_eq!(UTREEXO_TAG_V1[63], 0x85);
    // The coinbase flag and the height enter the leaf.
    let other_height = get_block_adds(&block, 11, &hash);
    assert_ne!(adds[0], other_height[0]);
    assert_eq!(get_block_adds(&block, 10, &hash), adds);
}

#[test]
fn block_adds_ignore_transaction_order() {
    let block = sample_block();
    let hash = block.header.block_hash();
    let mut adds = get_block_adds(&block, 10, &hash);
    let mut swapped = block.clone();
    swapped.txdata.swap(1, 2);
    let mut other = get_block_adds(&swapped, 10, &hash);
    adds.sort();
    other.sort();
    assert_eq!(adds, other);
}

#[test]
fn leaf_hash_matches_preimage() {
    let block = sample_block();
    let hash = block.header.block_hash();
    let adds = get_block_adds(&block, 10, &hash);
    let cb = &block.txdata[0];
    let mut pre = Vec::new();
    pre.extend_from_slice(&UTREEXO_TAG_V1);
    pre.extend_from_slice(&UTREEXO_TAG_V1);
    pre.extend_from_slice(&hash);
    pre.extend_from_slice(&cb.compute_txid());
    pre.extend_from_slice(&0u32.to_le_bytes());
    pre.extend_from_slice(&((10u32 << 1) | 1).to_le_bytes());
    pre.extend_from_slice(&50u64.to_le_bytes());
    pre.push(1);
    pre.push(0x51);
    assert_eq!(adds[0], bitcoin::hashes::sha512_256::Hash::hash(&pre).to_byte_array());
}

#[test]
fn modify_with_nothing_keeps_the_stump() {
    let s = Stump::new();
    let added = s.modify(&vec![[1u8; 32], [2u8; 32], [3u8; 32]], &vec![], &Proof { targets: vec![], hashes: vec![] }).unwrap();
    assert_eq!(added.leaves, 3);
    assert_eq!(added.roots.len(), 2);
    let same = added.modify(&vec![], &vec![], &Proof { targets: vec![], hashes: vec![] }).unwrap();
    assert_eq!(same.leaves, added.leaves);
    assert_eq!(same.roots, added.roots);
    let malformed = Stump { leaves: 3, roots: vec![] };
    assert!(malformed.modify(&vec![], &vec![], &Proof { targets: vec![], hashes: vec![] }).is_none());
}

#[test]
fn deleting_twice_fails() {
    let leaf = [9u8; 32];
    let s = Stump::new().modify(&vec![leaf], &vec![], &Proof { targets: vec![], hashes: vec![] }).unwrap();
    assert_eq!(s.roots, vec![Some(leaf)]);
    let proof = Proof { targets: vec![0], hashes: vec![] };
    let once = s.modify(&vec![], &vec![leaf], &proof).unwrap();
    assert_eq!(once.roots, vec![None]);
    assert!(once.modify(&vec![], &vec![leaf], &proof).is_none());
}

#[test]
fn unspendable_leaves_are_refused() {
    let block = sample_block();
    let acc = Stump::new().modify(&vec![[4u8; 32]], &vec![], &Proof { targets: vec![], hashes: vec![] }).unwrap();
    let before = acc.clone();
    let proof = Proof { targets: vec![0], hashes: vec![] };
    for leaf in [UNSPENDABLE_BIP30_UTXO_91722, UNSPENDABLE_BIP30_UTXO_91812] {
        assert_eq!(
            Consensus::update_acc(&acc, &block, 10, proof.clone(), vec![leaf]).map(|s| s.leaves),
            Err(BlockValidationErrors::UnspendableUTXO)
        );
        assert!(Consensus::contains_unspendable_utxo(&vec![[0u8; 32], leaf]));
    }
    assert!(!Consensus::contains_unspendable_utxo(&vec![[0u8; 32]]));
    assert_eq!(acc.leaves, before.leaves);
    assert_eq!(acc.roots, before.roots);
}

#[test]
fn update_acc_adds_block_outputs() {
    let block = sample_block();
    let acc = Stump::new();
    let next = Consensus::update_acc(&acc, &block, 10, Proof { targets: vec![], hashes: vec![] }, vec![]).unwrap();
    assert_eq!(next.leaves, 3);
    // Spending a leaf that the stump does not hold fails the proof.
    let bad = Consensus::update_acc(&next, &block, 11, Proof { targets: vec![0], hashes: vec![] }, vec![[6u8; 32]]);
    assert_eq!(bad.map(|s| s.leaves), Err(BlockValidationErrors::BadAccumulatorProof));
}

#[test]
fn spent_outputs_hash_to_the_leaves_they_were_added_as() {
    let block = sample_block();
    let hash = block.header.block_hash();
    let adds = get_block_adds(&block, 10, &hash);
    let cb = &block.txdata[0];
    let real = UtxoData {
        txout: cb.output[0].clone(),
        is_coinbase: true,
        creation_height: 10,
        creation_time: 0,
        creation_block_hash: hash,
    };
    let op = OutPoint { txid: cb.compute_txid(), vout: 0 };
    let mut spent = UtxoSet::new();
    spent.insert(op, real.clone());
    assert_eq!(spent_leaf_hashes(&spent), vec![adds[0]]);

    // Invented data gives another leaf, which the accumulator does not hold.
    let mut invented = real;
    invented.txout.value = 5_000_000_000;
    invented.is_coinbase = false;
    let mut forged = UtxoSet::new();
    forged.insert(op, invented);
    let forged_leaf = spent_leaf_hashes(&forged);
    assert_ne!(forged_leaf, vec![adds[0]]);
    let acc = Stump::new().modify(&vec![adds[0]], &vec![], &Proof { targets: vec![], hashes: vec![] }).unwrap();
    let proof = Proof { targets: vec![0], hashes: vec![] };
    assert!(acc.modify(&vec![], &vec![adds[0]], &proof).is_some());
    assert!(acc.modify(&vec![], &forged_leaf, &proof).is_none());
}
