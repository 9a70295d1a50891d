use blockchain_backend::canon::{account_string, document_string, nft_string, transaction_string};
use blockchain_backend::digest::digest_text;
use blockchain_backend::model::{copy_strings, Account, NftDocument, Transaction, NFT};
use blockchain_backend::text::{decimal_string, signed_decimal_string};

fn sample_document() -> NftDocument {
    NftDocument {
        id: "doc \"1\"".to_string(),
        document_type: 7,
        image: "img\\a.png".to_string(),
        date_added: "2024-01-01\n".to_string(),
        profile_type: "pro\u{e9}".to_string(),
    }
}

fn sample_nft() -> NFT {
    NFT {
        id: "nft_2".to_string(),
        name: "art1".to_string(),
        description: "a 'first' piece".to_string(),
        owner: "alice".to_string(),
        metadata: sample_document(),
        created_at: -12,
    }
}

#[test]
fn decimal_of_small_and_large_numbers() {
    assert_eq!(decimal_string(0), "0");
    assert_eq!(decimal_string(7), "7");
    assert_eq!(decimal_string(10), "10");
    assert_eq!(decimal_string(1234567890), "1234567890");
    assert_eq!(decimal_string(u64::MAX), "18446744073709551615");
}

#[test]
fn decimal_agrees_with_display() {
    let mut n: u64 = 1;
    for _ in 0..40 {
        assert_eq!(decimal_string(n), n.to_string());
        assert_eq!(decimal_string(n - 1), (n - 1).to_string());
        n = n.wrapping_mul(3).wrapping_add(11);
    }
}

#[test]
fn signed_decimal_of_both_signs() {
    assert_eq!(signed_decimal_string(0), "0");
    assert_eq!(signed_decimal_string(-1), "-1");
    assert_eq!(signed_decimal_string(1700000000), "1700000000");
    assert_eq!(signed_decimal_string(i64::MAX), "9223372036854775807");
    assert_eq!(signed_decimal_string(i64::MIN), "-9223372036854775808");
}

#[test]
fn digest_of_known_texts() {
    assert_eq!(
        digest_text(""),
        "e3b0c44298fc1c149afbf4c8996fb92427ae41e4649b934ca495991b7852b855"
    );
    assert_eq!(
        digest_text("abc"),
        "ba7816bf8f01cfea414140de5dae2223b00361a396177a9cb410ff61f20015ad"
    );
}

#[test]
fn digest_is_sixty_four_lower_case_hex_characters() {
    let d = digest_text("some text");
    assert_eq!(d.len(), 64);
    assert!(d.chars().all(|c| c.is_ascii_digit() || ('a'..='f').contains(&c)));
    assert_ne!(d, "some text");
}

#[test]
fn copy_of_strings_is_equal() {
    let v = vec!["a".to_string(), "".to_string(), "nft_3".to_string()];
    assert_eq!(copy_strings(&v), v);
    assert_eq!(copy_strings(&Vec::new()), Vec::<String>::new());
}

#[test]
fn document_text_exact() {
    assert_eq!(
        document_string(&NftDocument {
            id: "d1".to_string(),
            document_type: 3,
            image: "pic".to_string(),
            date_added: "today".to_string(),
            profile_type: "basic".to_string(),
        }),
        "NftDocument { id: \"d1\", document_type: 3, image: \"pic\", date_added: \"today\", profile_type: \"basic\" }"
    );
}

#[test]
fn account_text_exact() {
    let a = Account { id: "alice".to_string(), nfts: vec![], created_at: 5 };
    assert_eq!(account_string(&a), "Account { id: \"alice\", nfts: [], created_at: 5 }");
    let b = Account {
        id: "bob".to_string(),
        nfts: vec!["nft_1".to_string(), "nft_4".to_string(), "x\"y".to_string()],
        created_at: -3,
    };
    assert_eq!(
        account_string(&b),
        "Account { id: \"bob\", nfts: [\"nft_1\", \"nft_4\", \"x\\\"y\"], created_at: -3 }"
    );
}

#[test]
fn transfer_text_exact() {
    let tx = Transaction::Transfer {
        nft_id: "nft_3".to_string(),
        from: "alice".to_string(),
        to: "bob".to_string(),
    };
    assert_eq!(
        transaction_string(&tx),
        "Transfer { nft_id: \"nft_3\", from: \"alice\", to: \"bob\" }"
    );
}

#[test]
fn canonical_text_is_the_debug_text() {
    let d = sample_document();
    assert_eq!(document_string(&d), format!("{:?}", d));
    let n = sample_nft();
    assert_eq!(nft_string(&n), format!("{:?}", n));
    let a = Account {
        id: "al\tice".to_string(),
        nfts: vec!["nft_1".to_string(), "nft_2".to_string()],
        created_at: 1700000000,
    };
    assert_eq!(account_string(&a), format!("{:?}", a));
    let single = Account { id: "s".to_string(), nfts: vec!["only".to_string()], created_at: 0 };
    assert_eq!(account_string(&single), format!("{:?}", single));
    let t1 = Transaction::CreateAccount(a);
    assert_eq!(transaction_string(&t1), format!("{:?}", t1));
    let t2 = Transaction::MintNFT(n);
    assert_eq!(transaction_string(&t2), format!("{:?}", t2));
    let t3 = Transaction::Transfer {
        nft_id: "nft_\u{1}".to_string(),
        from: "a\\b".to_string(),
        to: "\"".to_string(),
    };
    assert_eq!(transaction_string(&t3), format!("{:?}", t3));
}

#[test]
fn clones_hold_the_same_values() {
    let n = sample_nft();
    assert_eq!(format!("{:?}", n.clone()), format!("{:?}", n));
    let t = Transaction::MintNFT(n);
    assert_eq!(format!("{:?}", t.clone()), format!("{:?}", t));
}
