use blockchain_backend::block::{has_leading_zeros, Block};
use blockchain_backend::model::{Account, Transaction};

fn alice_block() -> Block {
    Block::sealed_at(
        1,
        42,
        Transaction::CreateAccount(Account {
            id: "alice".to_string(),
            nfts: vec![],
            created_at: 42,
        }),
        "abc".to_string(),
    )
}

#[test]
fn sealed_block_has_nonce_zero_and_the_hash_of_its_fields() {
    let b = alice_block();
    assert_eq!(b.index, 1);
    assert_eq!(b.timestamp, 42);
    assert_eq!(b.previous_hash, "abc");
    assert_eq!(b.nonce, 0);
    assert_eq!(b.hash, "2701436809e8c8177156bf240a76adf87fd6e8f1decd4b113543fe5cf6f4e8aa");
    assert_eq!(b.calculate_hash(), b.hash);
    assert!(b.is_sealed());
}

#[test]
fn hash_of_a_transfer_block_with_negative_timestamp() {
    let b = Block::sealed_at(
        4,
        -5,
        Transaction::Transfer {
            nft_id: "nft_3".to_string(),
            from: "alice".to_string(),
            to: "bob".to_string(),
        },
        "prev".to_string(),
    );
    assert_eq!(b.hash, "5b76b3af98b15995fee7a00c022532f94a9b6bd34cd0ad211d3e6dc3390ec318");
}

#[test]
fn preimage_is_the_fields_written_one_after_the_other() {
    let mut b = alice_block();
    assert_eq!(
        b.preimage(),
        "142CreateAccount(Account { id: \"alice\", nfts: [], created_at: 42 })abc0"
    );
    b.nonce = 395;
    b.timestamp = -7;
    assert_eq!(
        b.preimage(),
        "1-7CreateAccount(Account { id: \"alice\", nfts: [], created_at: 42 })abc395"
    );
    assert_eq!(
        b.preimage(),
        format!("{}{}{:?}{}{}", b.index, b.timestamp, b.data, b.previous_hash, b.nonce)
    );
}

#[test]
fn hash_does_not_read_the_stored_hash() {
    let mut b = alice_block();
    let sealed = b.hash.clone();
    b.hash = "tampered".to_string();
    assert!(!b.is_sealed());
    assert_eq!(b.calculate_hash(), sealed);
}

#[test]
fn hash_changes_with_every_field() {
    let base = alice_block();
    let mut b = base.clone();
    b.index = 2;
    assert_ne!(b.calculate_hash(), base.hash);
    let mut b = base.clone();
    b.timestamp = 43;
    assert_ne!(b.calculate_hash(), base.hash);
    let mut b = base.clone();
    b.previous_hash = "abd".to_string();
    assert_ne!(b.calculate_hash(), base.hash);
    let mut b = base.clone();
    b.nonce = 1;
    assert_ne!(b.calculate_hash(), base.hash);
    let mut b = base.clone();
    b.data = Transaction::CreateAccount(Account {
        id: "alicf".to_string(),
        nfts: vec![],
        created_at: 42,
    });
    assert_ne!(b.calculate_hash(), base.hash);
}

#[test]
fn new_block_is_sealed_at_the_time_it_carries() {
    let b = Block::new(
        3,
        Transaction::Transfer {
            nft_id: "n".to_string(),
            from: "a".to_string(),
            to: "b".to_string(),
        },
        "p".to_string(),
    );
    assert_eq!(b.index, 3);
    assert_eq!(b.nonce, 0);
    assert_eq!(b.previous_hash, "p");
    assert!(b.timestamp > 1_600_000_000);
    assert!(b.is_sealed());
    let again = Block::sealed_at(b.index, b.timestamp, b.data.clone(), b.previous_hash.clone());
    assert_eq!(again.hash, b.hash);
}

#[test]
fn leading_zeros_are_counted_from_the_start() {
    assert!(has_leading_zeros("00ab", 0));
    assert!(has_leading_zeros("00ab", 1));
    assert!(has_leading_zeros("00ab", 2));
    assert!(!has_leading_zeros("00ab", 3));
    assert!(!has_leading_zeros("a00b", 1));
    assert!(has_leading_zeros("", 0));
    assert!(!has_leading_zeros("", 1));
    assert!(!has_leading_zeros("00", 3));
    assert!(has_leading_zeros("000", 3));
}

#[test]
fn mining_keeps_the_first_nonce_that_meets_the_target() {
    let mut b = alice_block();
    b.mine_block(1);
    assert_eq!(b.nonce, 6);
    assert_eq!(b.hash, "09d524219b37f5e7a603198d15f125ab68fa6f2379ffc9a0073d7db68358eb5d");
    assert!(b.is_sealed());

    let mut c = alice_block();
    c.mine_block(2);
    assert_eq!(c.nonce, 395);
    assert_eq!(c.hash, "00024cb1bcc4632aab4d1ddbd4b2fcf866f3a7268d4ba744ff5419d9e4cc88cd");
    assert!(c.is_sealed());
    assert_eq!(c.index, 1);
    assert_eq!(c.timestamp, 42);
    assert_eq!(c.previous_hash, "abc");
}

#[test]
fn mining_leaves_a_block_that_meets_the_target_as_it_is() {
    let mut b = alice_block();
    b.mine_block(0);
    assert_eq!(b.nonce, 0);
    assert_eq!(b.hash, "2701436809e8c8177156bf240a76adf87fd6e8f1decd4b113543fe5cf6f4e8aa");

    let mut c = alice_block();
    c.mine_block(2);
    let (nonce, hash) = (c.nonce, c.hash.clone());
    c.mine_block(2);
    assert_eq!(c.nonce, nonce);
    assert_eq!(c.hash, hash);
    c.mine_block(1);
    assert_eq!(c.nonce, nonce);
}

#[test]
fn mining_stops_when_the_nonces_run_out() {
    let mut b = alice_block();
    b.nonce = u64::MAX - 2;
    b.hash = b.calculate_hash();
    let before = b.hash.clone();
    b.mine_block(64);
    assert_eq!(b.nonce, u64::MAX);
    assert_ne!(b.hash, before);
    assert!(b.is_sealed());
    assert!(!has_leading_zeros(&b.hash, 64));
}
