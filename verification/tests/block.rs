use powledger::block::{block_preimage, has_leading_zeros, hash_contents};
use powledger::{Block, MineError, HASH_HEX_LEN};

const STAMP: u128 = 1_700_000_000_000;

fn sample(difficulty_payload: &str) -> Block {
    Block::with_timestamp(1, STAMP, difficulty_payload.to_string(), "genesis_hash")
}

#[test]
fn preimage_concatenates_fields_in_order() {
    assert_eq!(block_preimage(1, 0, "a", "genesis_hash", 0), b"10agenesis_hash0".to_vec());
    assert_eq!(block_preimage(12, 345, "pay", "prev", 6789), b"12345payprev6789".to_vec());
}

#[test]
fn preimage_encodes_text_as_utf8() {
    assert_eq!(
        block_preimage(7, 42, "caf\u{e9}", "0", 3),
        vec![b'7', b'4', b'2', b'c', b'a', b'f', 0xc3, 0xa9, b'0', b'3']
    );
}

#[test]
fn preimage_of_empty_strings_and_limits() {
    assert_eq!(
        block_preimage(u32::MAX, u128::MAX, "", "", u64::MAX),
        b"429496729534028236692093846346337460743176821145518446744073709551615".to_vec()
    );
}

#[test]
fn hash_of_known_contents() {
    assert_eq!(
        hash_contents(1, 0, "a", "genesis_hash", 0),
        "b2bb9cb155d8c27e36b5c2938eceaae0d44d5f27ff66dd31b572f53e3ceb6b57"
    );
    assert_eq!(
        hash_contents(0, 0, "Genesis Block", "0", 0),
        "4ab3cbc31380fe9b088b1e7a92a344692b086eaac010b8c56e8c5e975fb6463a"
    );
    assert_eq!(
        hash_contents(7, 42, "caf\u{e9}", "0", 3),
        "960124e16490939efa5f2dc3fa4499a22895b97259b1583d936dec0492ce0954"
    );
    assert_eq!(
        hash_contents(u32::MAX, u128::MAX, "", "", u64::MAX),
        "4ba860dd40c8f21fcceafd02fb2ef88e8784fc40a3f065983a4dde4719e296a7"
    );
}

#[test]
fn hash_has_sixty_four_lowercase_hex_characters() {
    let hash = hash_contents(3, 99, "payload", "abc", 17);
    assert_eq!(hash.len(), HASH_HEX_LEN);
    assert!(hash.chars().all(|c| c.is_ascii_digit() || ('a'..='f').contains(&c)));
}

#[test]
fn calculate_hash_is_deterministic() {
    let block = sample("payload");
    let first = block.calculate_hash();
    let second = block.calculate_hash();
    assert_eq!(first, second);
    assert_eq!(first, hash_contents(1, STAMP, "payload", "genesis_hash", 0));
}

#[test]
fn calculate_hash_ignores_the_stored_hash() {
    let block = sample("payload");
    let mut other = block.clone();
    other.hash = "something else".to_string();
    assert_eq!(block.calculate_hash(), other.calculate_hash());
}

#[test]
fn calculate_hash_depends_on_every_content_field() {
    let block = sample("payload");
    let base = block.calculate_hash();

    let mut changed = block.clone();
    changed.index = 2;
    assert_ne!(changed.calculate_hash(), base);

    let mut changed = block.clone();
    changed.timestamp = STAMP + 1;
    assert_ne!(changed.calculate_hash(), base);

    let mut changed = block.clone();
    changed.data = "payloae".to_string();
    assert_ne!(changed.calculate_hash(), base);

    let mut changed = block.clone();
    changed.previous_hash = "genesis_hasi".to_string();
    assert_ne!(changed.calculate_hash(), base);

    let mut changed = block.clone();
    changed.nonce = 1;
    assert_ne!(changed.calculate_hash(), base);
}

#[test]
fn genesis_block_is_fixed() {
    let genesis = Block::genesis_block();
    assert_eq!(genesis.index, 0);
    assert_eq!(genesis.timestamp, 0);
    assert_eq!(genesis.data, "Genesis Block");
    assert_eq!(genesis.previous_hash, "0");
    assert_eq!(genesis.hash, "genesis_hash");
    assert_eq!(genesis.nonce, 0);
}

#[test]
fn genesis_block_is_idempotent() {
    let a = Block::genesis_block();
    let b = Block::genesis_block();
    assert_eq!(a.index, b.index);
    assert_eq!(a.timestamp, b.timestamp);
    assert_eq!(a.data, b.data);
    assert_eq!(a.previous_hash, b.previous_hash);
    assert_eq!(a.hash, b.hash);
    assert_eq!(a.nonce, b.nonce);
}

#[test]
fn genesis_hash_is_a_marker_not_a_digest() {
    let genesis = Block::genesis_block();
    assert_ne!(genesis.hash, genesis.calculate_hash());
}

#[test]
fn with_timestamp_builds_an_unmined_block() {
    let block = Block::with_timestamp(1, STAMP, "block 14".to_string(), "genesis_hash");
    assert_eq!(block.index, 1);
    assert_eq!(block.timestamp, STAMP);
    assert_eq!(block.data, "block 14");
    assert_eq!(block.previous_hash, "genesis_hash");
    assert_eq!(block.nonce, 0);
    assert_eq!(block.hash, "34567703b07553186f2468f1ea870101193d5488e219159ebdb804025faae80a");
}

#[test]
fn new_builds_an_unmined_block_for_the_current_time() {
    let block = Block::new(5, "payload".to_string(), "abc");
    assert_eq!(block.index, 5);
    assert_eq!(block.data, "payload");
    assert_eq!(block.previous_hash, "abc");
    assert_eq!(block.nonce, 0);
    assert_eq!(block.hash, block.calculate_hash());
    assert_eq!(block.hash, hash_contents(5, block.timestamp, "payload", "abc", 0));
}

#[test]
fn new_stamps_blocks_in_clock_order() {
    let first = Block::new(1, "a".to_string(), "p");
    let second = Block::new(2, "b".to_string(), "p");
    assert!(first.timestamp > 1_600_000_000_000);
    assert!(second.timestamp >= first.timestamp);
}

#[test]
fn leading_zeros_are_counted_in_characters() {
    assert!(has_leading_zeros("00ab", 0));
    assert!(has_leading_zeros("00ab", 1));
    assert!(has_leading_zeros("00ab", 2));
    assert!(!has_leading_zeros("00ab", 3));
    assert!(!has_leading_zeros("00ab", 4));
    assert!(!has_leading_zeros("a000", 1));
    assert!(has_leading_zeros("0000", 4));
}

#[test]
fn a_hash_shorter_than_the_difficulty_misses_the_target() {
    assert!(!has_leading_zeros("0000", 5));
    assert!(!has_leading_zeros("", 1));
    assert!(has_leading_zeros("", 0));
}

#[test]
fn leading_zeros_of_text_beyond_ascii() {
    assert!(has_leading_zeros("0\u{e9}", 1));
    assert!(!has_leading_zeros("0\u{e9}", 2));
    assert!(!has_leading_zeros("\u{e9}0", 1));
}

#[test]
fn mining_meets_the_target_for_difficulty_zero_to_four() {
    for difficulty in 0..=4usize {
        let mut block = sample("block 14");
        assert_eq!(block.mine_block(difficulty), Ok(()));
        assert!(block.hash.starts_with(&"0".repeat(difficulty)));
        assert!(has_leading_zeros(&block.hash, difficulty));
        assert_eq!(block.hash, block.calculate_hash());
    }
}

#[test]
fn mining_finds_the_first_nonce_that_meets_the_target() {
    let expected: [(usize, u64, &str); 5] = [
        (0, 0, "34567703b07553186f2468f1ea870101193d5488e219159ebdb804025faae80a"),
        (1, 12, "040de13475f551dd9aa13d59038b2975bcc465185fa06e9fa814ae8954fe8c14"),
        (2, 281, "0097a5b4015f4a755d2ce774b92184f61a64870164da883b133ab0ca38b873f5"),
        (3, 449, "000097f4c99a53e0abef8e89a207098d7be6670857924006143b98498f3a1971"),
        (4, 449, "000097f4c99a53e0abef8e89a207098d7be6670857924006143b98498f3a1971"),
    ];
    for (difficulty, nonce, hash) in expected {
        let mut block = sample("block 14");
        assert_eq!(block.mine_block(difficulty), Ok(()));
        assert_eq!(block.nonce, nonce);
        assert_eq!(block.hash, hash);
    }
}

#[test]
fn mining_tries_no_nonce_below_the_first_solution() {
    let mut block = Block::with_timestamp(1, 0, "x".to_string(), "genesis_hash");
    assert_eq!(block.mine_block(3), Ok(()));
    assert_eq!(block.nonce, 9651);
    assert_eq!(block.hash, "000dcb85cadccaef01bee677fc5ccad1077465b1ccc975477573e58c963c3c95");
    for nonce in 0..9651u64 {
        assert!(!hash_contents(1, 0, "x", "genesis_hash", nonce).starts_with("000"));
    }
}

#[test]
fn mining_changes_only_nonce_and_hash() {
    let mut block = sample("block 14");
    assert_eq!(block.mine_block(2), Ok(()));
    assert_eq!(block.index, 1);
    assert_eq!(block.timestamp, STAMP);
    assert_eq!(block.data, "block 14");
    assert_eq!(block.previous_hash, "genesis_hash");
}

#[test]
fn mining_replaces_a_stale_hash_that_has_the_zeros() {
    let mut block = sample("block 14");
    block.hash = "000abc".to_string();
    block.nonce = 77;
    assert_eq!(block.mine_block(3), Ok(()));
    assert_eq!(block.nonce, 449);
    assert_eq!(block.hash, "000097f4c99a53e0abef8e89a207098d7be6670857924006143b98498f3a1971");
    assert_eq!(block.hash, block.calculate_hash());
}

#[test]
fn mining_replaces_a_short_stale_hash() {
    let mut block = sample("block 14");
    block.hash = "0".to_string();
    block.nonce = 7;
    assert_eq!(block.mine_block(1), Ok(()));
    assert_eq!(block.nonce, 12);
    assert_eq!(block.hash, "040de13475f551dd9aa13d59038b2975bcc465185fa06e9fa814ae8954fe8c14");
    assert_eq!(block.hash, block.calculate_hash());
}

#[test]
fn mining_tries_the_current_nonce_first() {
    let mut block = sample("block 14");
    block.hash = "stale".to_string();
    block.nonce = 449;
    assert_eq!(block.mine_block(3), Ok(()));
    assert_eq!(block.nonce, 449);
    assert_eq!(block.hash, "000097f4c99a53e0abef8e89a207098d7be6670857924006143b98498f3a1971");
}

#[test]
fn mining_never_goes_below_the_current_nonce() {
    let mut block = sample("block 14");
    block.nonce = 450;
    assert_eq!(block.mine_block(3), Ok(()));
    assert_eq!(block.nonce, 1931);
    assert_eq!(block.hash, "00070f850f4e4e068cd13470af93e5a117c1b216132af4c1d64f6c6322eb4b93");

    let mut block = sample("block 14");
    block.nonce = 13;
    assert_eq!(block.mine_block(1), Ok(()));
    assert_eq!(block.nonce, 18);
    assert_eq!(block.hash, "0a8d6f39fb52e01b89e2d901a93ba25fb762eb3e894ef4d44873ae8698c3f4c0");
}

#[test]
fn mining_at_difficulty_zero_stores_the_digest_at_the_current_nonce() {
    let mut genesis = Block::genesis_block();
    assert_eq!(genesis.mine_block(0), Ok(()));
    assert_eq!(genesis.nonce, 0);
    assert_eq!(genesis.hash, "4ab3cbc31380fe9b088b1e7a92a344692b086eaac010b8c56e8c5e975fb6463a");

    let mut block = sample("block 14");
    block.nonce = 449;
    block.hash = "stale".to_string();
    assert_eq!(block.mine_block(0), Ok(()));
    assert_eq!(block.nonce, 449);
    assert_eq!(block.hash, "000097f4c99a53e0abef8e89a207098d7be6670857924006143b98498f3a1971");
}

#[test]
fn mining_the_genesis_block_replaces_its_marker() {
    let mut genesis = Block::genesis_block();
    assert_eq!(genesis.mine_block(1), Ok(()));
    assert_eq!(genesis.nonce, 3);
    assert_eq!(genesis.hash, "0320963c5e2d1e21fca36c170493169944ea4a4819c18e40243d986a72c22f41");
    assert_eq!(genesis.hash, genesis.calculate_hash());
}

#[test]
fn mining_again_at_a_met_difficulty_changes_nothing() {
    let mut block = sample("block 14");
    assert_eq!(block.mine_block(2), Ok(()));
    let nonce = block.nonce;
    let hash = block.hash.clone();
    assert_eq!(block.mine_block(2), Ok(()));
    assert_eq!(block.mine_block(1), Ok(()));
    assert_eq!(block.nonce, nonce);
    assert_eq!(block.hash, hash);
}

#[test]
fn mining_rejects_a_difficulty_above_the_hash_length() {
    let mut block = sample("block 14");
    let before = block.clone();
    assert_eq!(block.mine_block(HASH_HEX_LEN + 1), Err(MineError::DifficultyTooHigh));
    assert_eq!(block.mine_block(usize::MAX), Err(MineError::DifficultyTooHigh));
    assert_eq!(block.nonce, before.nonce);
    assert_eq!(block.hash, before.hash);
}

#[test]
fn mining_rejects_a_high_difficulty_even_for_a_long_run_of_zeros() {
    let mut block = sample("block 14");
    block.hash = "0".repeat(100);
    assert_eq!(block.mine_block(70), Err(MineError::DifficultyTooHigh));
    assert_eq!(block.hash, "0".repeat(100));
    assert_eq!(block.nonce, 0);
}

#[test]
fn mining_fails_at_the_last_nonce_even_when_the_stale_hash_has_the_zeros() {
    let mut block = Block::with_timestamp(1, 0, "x".to_string(), "genesis_hash");
    block.nonce = u64::MAX;
    block.hash = "0000".to_string();
    assert_eq!(block.mine_block(1), Err(MineError::NonceExhausted));
    assert_eq!(block.nonce, u64::MAX);
    assert_eq!(block.hash, "0000");
}

#[test]
fn mining_fails_when_the_nonce_space_is_used_up() {
    let mut block = Block::with_timestamp(1, 0, "x".to_string(), "genesis_hash");
    block.nonce = u64::MAX;
    block.hash = block.calculate_hash();
    assert_eq!(block.hash, "728d43ce2d0b8e5dd146641983e58d37194f279f50490685f9d85b0dc9bec2ec");
    assert_eq!(block.mine_block(1), Err(MineError::NonceExhausted));
    assert_eq!(block.nonce, u64::MAX);
    assert_eq!(block.hash, "728d43ce2d0b8e5dd146641983e58d37194f279f50490685f9d85b0dc9bec2ec");
}

#[test]
fn mining_leaves_the_block_untouched_when_the_last_nonce_fails() {
    let mut block = Block::with_timestamp(1, 0, "x".to_string(), "genesis_hash");
    block.nonce = u64::MAX - 1;
    block.hash = block.calculate_hash();
    let hash = block.hash.clone();
    assert!(!hash.starts_with('0'));
    assert_eq!(block.mine_block(1), Err(MineError::NonceExhausted));
    assert_eq!(block.nonce, u64::MAX - 1);
    assert_eq!(block.hash, hash);
}
