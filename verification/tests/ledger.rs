use blockchain_backend::model::{Account, NftDocument, Transaction, NFT};
use blockchain_backend::state::{strings_without, Ledger};

fn asset(id: &str, owner: &str) -> NFT {
    NFT {
        id: id.to_string(),
        name: "n".to_string(),
        description: "d".to_string(),
        owner: owner.to_string(),
        metadata: NftDocument {
            id: "m".to_string(),
            document_type: 0,
            image: "".to_string(),
            date_added: "".to_string(),
            profile_type: "".to_string(),
        },
        created_at: 1,
    }
}

fn account(id: &str) -> Account {
    Account { id: id.to_string(), nfts: vec![], created_at: 1 }
}

#[test]
fn removing_an_id_keeps_the_others_in_order() {
    let v = vec!["a".to_string(), "b".to_string(), "a".to_string(), "c".to_string()];
    assert_eq!(strings_without(&v, &"a".to_string()), vec!["b", "c"]);
    assert_eq!(strings_without(&v, &"b".to_string()), vec!["a", "a", "c"]);
    assert_eq!(strings_without(&v, &"z".to_string()), v);
    assert_eq!(strings_without(&Vec::new(), &"a".to_string()), Vec::<String>::new());
}

#[test]
fn applying_transactions_one_by_one() {
    let mut l = Ledger::new();
    assert!(l.account("alice").is_none());
    l.apply(&Transaction::CreateAccount(account("alice")));
    l.apply(&Transaction::CreateAccount(account("bob")));
    l.apply(&Transaction::MintNFT(asset("x", "alice")));
    assert_eq!(l.account("alice").unwrap().nfts, vec!["x"]);
    assert_eq!(l.nft("x").unwrap().owner, "alice");
    l.apply(&Transaction::Transfer {
        nft_id: "x".to_string(),
        from: "alice".to_string(),
        to: "bob".to_string(),
    });
    assert!(l.account("alice").unwrap().nfts.is_empty());
    assert_eq!(l.account("bob").unwrap().nfts, vec!["x"]);
    assert_eq!(l.nft("x").unwrap().owner, "bob");
    assert_eq!(l.nft("x").unwrap().name, "n");
}

#[test]
fn applying_passes_over_entries_that_do_not_exist() {
    let mut l = Ledger::new();
    l.apply(&Transaction::MintNFT(asset("x", "ghost")));
    assert_eq!(l.nft("x").unwrap().owner, "ghost");
    assert!(l.account("ghost").is_none());
    l.apply(&Transaction::CreateAccount(account("bob")));
    l.apply(&Transaction::Transfer {
        nft_id: "y".to_string(),
        from: "ghost".to_string(),
        to: "bob".to_string(),
    });
    assert!(l.nft("y").is_none());
    assert_eq!(l.account("bob").unwrap().nfts, vec!["y"]);
}
