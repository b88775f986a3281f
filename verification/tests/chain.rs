use hashchain::block::{has_leading_zeros, Block};
use hashchain::chain::{Blockchain, DIFFICULTY, EFFORT_CAP, FALLBACK_DELAY_MILLIS};
use hashchain::mining::MineOutcome;

const GENESIS_HASH: &str = "85390402f1cc405559e68ba342b9878f22f1f88715daa1f75f10b448b3d78f86";

fn block_at(chain: &Blockchain, index: usize) -> &Block {
    match chain.get_block(index) {
        Some(block) => block,
        None => panic!("no block at {}", index),
    }
}

#[test]
fn the_fixed_policy() {
    assert_eq!(DIFFICULTY, 2);
    assert_eq!(EFFORT_CAP, 100);
    assert_eq!(FALLBACK_DELAY_MILLIS, 3000);
}

#[test]
fn new_chain_holds_the_genesis_block() {
    let chain = Blockchain::new();
    assert_eq!(chain.get_total_blocks(), 1);
    assert_eq!(chain.difficulty(), 2);
    assert_eq!(chain.effort_cap(), 100);
    let genesis = block_at(&chain, 0);
    assert_eq!(genesis.index, 0);
    assert_eq!(genesis.previous_hash, "");
    assert_eq!(genesis.data, "Genesis block");
    assert_eq!(genesis.nonce, 0);
    assert!(genesis.timestamp > 1_577_836_800);
}

#[test]
fn genesis_hash_is_the_plain_digest_at_nonce_zero() {
    let chain = Blockchain::new();
    let genesis = block_at(&chain, 0);
    assert_eq!(genesis.nonce, 0);
    assert_eq!(genesis.hash.len(), 64);
    assert_eq!(genesis.hash, genesis.calculate_hash());
}

#[test]
fn genesis_is_not_mined() {
    // At this timestamp the digest at nonce zero has no leading zero, and a
    // search at any difficulty above zero would have moved the nonce on.
    let chain = Blockchain::starting_at(1_700_000_000, 1, 1000);
    let genesis = block_at(&chain, 0);
    assert_eq!(genesis.nonce, 0);
    assert_eq!(genesis.hash, GENESIS_HASH);
    assert!(!has_leading_zeros(&genesis.hash, 1));
}

#[test]
fn starting_at_sets_the_policy_and_the_time() {
    let chain = Blockchain::starting_at(1_700_000_000, 3, 7);
    assert_eq!(chain.get_total_blocks(), 1);
    assert_eq!(chain.difficulty(), 3);
    assert_eq!(chain.effort_cap(), 7);
    let genesis = block_at(&chain, 0);
    assert_eq!(genesis.index, 0);
    assert_eq!(genesis.timestamp, 1_700_000_000);
    assert_eq!(genesis.previous_hash, "");
    assert_eq!(genesis.data, "Genesis block");
    assert_eq!(genesis.hash, GENESIS_HASH);
}

#[test]
fn get_block_past_the_end_is_none() {
    let chain = Blockchain::starting_at(1, 1, 1);
    assert!(chain.get_block(0).is_some());
    assert!(chain.get_block(1).is_none());
    assert!(chain.get_block(usize::MAX).is_none());
}

#[test]
fn last_block_is_the_newest() {
    let mut chain = Blockchain::starting_at(1_700_000_000, 1, 1000);
    assert_eq!(chain.last_block().index, 0);
    chain.add_block(Block::with_timestamp(1, String::new(), String::from("A"), 1_700_000_001));
    assert_eq!(chain.last_block().index, 1);
    assert_eq!(chain.last_block().data, "A");
}

#[test]
fn add_block_links_mines_and_appends() {
    let mut chain = Blockchain::starting_at(1_700_000_000, 2, 100);
    let outcome =
        chain.add_block(Block::with_timestamp(1, String::new(), String::from("A"), 1_700_000_001));
    assert_eq!(chain.get_total_blocks(), 2);
    let added = block_at(&chain, 1);
    assert_eq!(added.index, 1);
    assert_eq!(added.data, "A");
    assert_eq!(added.timestamp, 1_700_000_001);
    assert_eq!(added.previous_hash, GENESIS_HASH);
    assert_eq!(added.nonce, 46);
    assert_eq!(added.hash, "002e2050d638c9210ad5153d38673f9a12d31c6aeb72207cd06df58ff05fd1e6");
    assert_eq!(
        outcome,
        MineOutcome::Succeeded {
            hash: String::from("002e2050d638c9210ad5153d38673f9a12d31c6aeb72207cd06df58ff05fd1e6"),
            nonce: 46,
        }
    );
}

#[test]
fn add_block_discards_the_previous_hash_it_is_given() {
    let mut chain = Blockchain::starting_at(1_700_000_000, 2, 100);
    chain.add_block(Block::with_timestamp(
        1,
        String::from("not the tail"),
        String::from("A"),
        1_700_000_001,
    ));
    let added = block_at(&chain, 1);
    assert_eq!(added.previous_hash, GENESIS_HASH);
    assert_eq!(added.hash, "002e2050d638c9210ad5153d38673f9a12d31c6aeb72207cd06df58ff05fd1e6");
}

#[test]
fn add_block_leaves_earlier_blocks_alone() {
    let mut chain = Blockchain::starting_at(1_700_000_000, 1, 1000);
    chain.add_block(Block::with_timestamp(1, String::new(), String::from("A"), 1_700_000_001));
    let first = block_at(&chain, 1).clone();
    chain.add_block(Block::with_timestamp(2, String::new(), String::from("B"), 1_700_000_002));
    assert_eq!(block_at(&chain, 0).hash, GENESIS_HASH);
    assert_eq!(block_at(&chain, 1).hash, first.hash);
    assert_eq!(block_at(&chain, 1).nonce, first.nonce);
    assert_eq!(chain.difficulty(), 1);
    assert_eq!(chain.effort_cap(), 1000);
}

#[test]
fn add_block_reports_a_fallback() {
    let mut chain = Blockchain::starting_at(1_700_000_000, 65, 3);
    let outcome =
        chain.add_block(Block::with_timestamp(1, String::new(), String::from("A"), 1_700_000_001));
    assert_eq!(chain.get_total_blocks(), 2);
    let added = block_at(&chain, 1);
    assert_eq!(added.nonce, 3);
    assert_eq!(added.hash, added.calculate_hash());
    match outcome {
        MineOutcome::FallbackAccepted { hash, nonce, iterations } => {
            assert_eq!(hash, added.hash);
            assert_eq!(nonce, 3);
            assert_eq!(iterations, 4);
        }
        MineOutcome::Succeeded { .. } => panic!("no hash has sixty-five digits"),
    }
}

#[test]
fn chain_grows_by_one_block_per_append() {
    let mut chain = Blockchain::starting_at(1_700_000_000, 1, 50);
    for k in 1..=6u32 {
        chain.add_block(Block::with_timestamp(k, String::new(), format!("unit {}", k), 1_700_000_000));
        assert_eq!(chain.get_total_blocks(), 1 + k as usize);
    }
}

#[test]
fn every_block_names_the_hash_before_it() {
    let mut chain = Blockchain::new();
    for k in 1..=5u32 {
        chain.add_block(Block::new(k, String::from("ignored"), format!("unit {}", k)));
    }
    assert_eq!(chain.get_total_blocks(), 6);
    for i in 1..chain.get_total_blocks() {
        assert_eq!(block_at(&chain, i).previous_hash, block_at(&chain, i - 1).hash);
        assert_eq!(block_at(&chain, i).hash, block_at(&chain, i).calculate_hash());
        assert_ne!(block_at(&chain, i).previous_hash, "");
    }
    assert_eq!(block_at(&chain, 0).previous_hash, "");
    assert_eq!(block_at(&chain, 0).index, 0);
}

#[test]
fn three_blocks_at_difficulty_one() {
    let mut chain = Blockchain::starting_at(1_700_000_000, 1, 1000);
    let mut outcomes = Vec::new();
    let payloads = ["A", "B", "C"];
    for (i, payload) in payloads.iter().enumerate() {
        let block = Block::with_timestamp(
            i as u32 + 1,
            String::new(),
            String::from(*payload),
            1_700_000_001 + i as u64,
        );
        outcomes.push(chain.add_block(block));
    }
    assert_eq!(chain.get_total_blocks(), 4);
    for i in 1..4 {
        let block = block_at(&chain, i);
        assert_eq!(block.previous_hash, block_at(&chain, i - 1).hash);
        assert_eq!(block.data, payloads[i - 1]);
        match &outcomes[i - 1] {
            MineOutcome::Succeeded { hash, .. } => {
                assert!(block.hash.starts_with("0"));
                assert_eq!(hash, &block.hash);
            }
            MineOutcome::FallbackAccepted { iterations, .. } => assert!(*iterations > 1000),
        }
    }
    assert_eq!(
        block_at(&chain, 1).hash,
        "06d037d831df87f1fbefa34f4a5dea208065c4e83ff97691091a085fdf4c51e6"
    );
    assert_eq!(block_at(&chain, 1).nonce, 1);
    assert_eq!(
        block_at(&chain, 2).hash,
        "07dbd0fed7a2e618176139f8485a34c81a0bfdd6d2e62381aad6f4ed47336e9b"
    );
    assert_eq!(block_at(&chain, 2).nonce, 20);
    assert_eq!(
        block_at(&chain, 3).hash,
        "062ad34ee2c08104b5fd5a52357a2def8589cc91b42aa65f9a138214a6980a26"
    );
    assert_eq!(block_at(&chain, 3).nonce, 0);
}

#[test]
fn three_blocks_stamped_by_the_clock() {
    let mut chain = Blockchain::starting_at(1_700_000_000, 1, 1000);
    let mut outcomes = Vec::new();
    for (i, payload) in ["A", "B", "C"].iter().enumerate() {
        outcomes.push(chain.add_block(Block::new(i as u32 + 1, String::new(), String::from(*payload))));
    }
    assert_eq!(chain.get_total_blocks(), 4);
    for i in 1..4 {
        let block = block_at(&chain, i);
        assert_eq!(block.previous_hash, block_at(&chain, i - 1).hash);
        match &outcomes[i - 1] {
            MineOutcome::Succeeded { .. } => assert!(block.hash.starts_with("0")),
            MineOutcome::FallbackAccepted { iterations, .. } => assert!(*iterations > 1000),
        }
    }
}
