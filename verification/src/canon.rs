//! The canonical text of a transaction: the text that a block's hash covers.
//!
//! It is the text that Rust's derived `Debug` formatting gives for the same
//! value: type and field names, numbers in decimal, strings quoted.

use crate::model::{
    texts, Account, AccountView, DocumentView, NftDocument, NftView, Transaction, TransactionView,
    NFT,
};
use crate::text::{
    debug_quoted, debug_string, decimal_string, decimal_text, signed_decimal_string,
    signed_decimal_text,
};
use vstd::prelude::*;
use vstd::string::*;

verus! {

/// Quoted texts separated by a comma and a space.
pub open spec fn joined_quoted(items: Seq<Seq<char>>) -> Seq<char>
    decreases items.len(),
{
    if items.len() == 0 {
        Seq::empty()
    } else if items.len() == 1 {
        debug_quoted(items[0])
    } else {
        joined_quoted(items.drop_last()) + ", "@ + debug_quoted(items.last())
    }
}

/// The canonical text of an attached record.
pub open spec fn document_text(d: DocumentView) -> Seq<char> {
    "NftDocument { id: "@ + debug_quoted(d.id) + ", document_type: "@ + decimal_text(
        d.document_type as nat,
    ) + ", image: "@ + debug_quoted(d.image) + ", date_added: "@ + debug_quoted(d.date_added)
        + ", profile_type: "@ + debug_quoted(d.profile_type) + " }"@
}

/// The canonical text of an asset.
pub open spec fn nft_text(n: NftView) -> Seq<char> {
    "NFT { id: "@ + debug_quoted(n.id) + ", name: "@ + debug_quoted(n.name) + ", description: "@
        + debug_quoted(n.description) + ", owner: "@ + debug_quoted(n.owner) + ", metadata: "@
        + document_text(n.metadata) + ", created_at: "@ + signed_decimal_text(n.created_at as int)
        + " }"@
}

/// The canonical text of an account.
pub open spec fn account_text(a: AccountView) -> Seq<char> {
    "Account { id: "@ + debug_quoted(a.id) + ", nfts: ["@ + joined_quoted(a.nfts)
        + "], created_at: "@ + signed_decimal_text(a.created_at as int) + " }"@
}

/// The canonical text of a transaction.
pub open spec fn transaction_text(tx: TransactionView) -> Seq<char> {
    match tx {
        TransactionView::CreateAccount(a) => "CreateAccount("@ + account_text(a) + ")"@,
        TransactionView::MintNFT(n) => "MintNFT("@ + nft_text(n) + ")"@,
        TransactionView::Transfer { nft_id, from, to } => "Transfer { nft_id: "@ + debug_quoted(
            nft_id,
        ) + ", from: "@ + debug_quoted(from) + ", to: "@ + debug_quoted(to) + " }"@,
    }
}

fn joined_string(items: &Vec<String>) -> (r: String)
    ensures
        r@ == joined_quoted(texts(items@)),
{
    let mut s = String::new();
    let ghost all = texts(items@);
    let mut i: usize = 0;
    while i < items.len()
        invariant
            i <= items.len(),
            all == texts(items@),
            s@ == joined_quoted(all.take(i as int)),
        decreases items.len() - i,
    {
        let quoted = debug_string(items[i].as_str());
        proof {
            let next = all.take(i + 1);
            assert(next.drop_last() =~= all.take(i as int));
            assert(next.last() == items@[i as int]@);
            if i == 0 {
                assert(joined_quoted(all.take(0)) =~= Seq::<char>::empty());
                assert(s@ + quoted@ =~= quoted@);
            }
        }
        if i > 0 {
            s.append(", ");
        }
        s.append(quoted.as_str());
        i += 1;
    }
    assert(all.take(items.len() as int) =~= all);
    s
}

/// Writes the canonical text of an attached record.
pub fn document_string(d: &NftDocument) -> (r: String)
    ensures
        r@ == document_text(d@),
{
    let mut s = String::from_str("NftDocument { id: ");
    s.append(debug_string(d.id.as_str()).as_str());
    s.append(", document_type: ");
    s.append(decimal_string(d.document_type as u64).as_str());
    s.append(", image: ");
    s.append(debug_string(d.image.as_str()).as_str());
    s.append(", date_added: ");
    s.append(debug_string(d.date_added.as_str()).as_str());
    s.append(", profile_type: ");
    s.append(debug_string(d.profile_type.as_str()).as_str());
    s.append(" }");
    s
}

/// Writes the canonical text of an asset.
pub fn nft_string(n: &NFT) -> (r: String)
    ensures
        r@ == nft_text(n@),
{
    let mut s = String::from_str("NFT { id: ");
    s.append(debug_string(n.id.as_str()).as_str());
    s.append(", name: ");
    s.append(debug_string(n.name.as_str()).as_str());
    s.append(", description: ");
    s.append(debug_string(n.description.as_str()).as_str());
    s.append(", owner: ");
    s.append(debug_string(n.owner.as_str()).as_str());
    s.append(", metadata: ");
    s.append(document_string(&n.metadata).as_str());
    s.append(", created_at: ");
    s.append(signed_decimal_string(n.created_at).as_str());
    s.append(" }");
    s
}

/// Writes the canonical text of an account.
pub fn account_string(a: &Account) -> (r: String)
    ensures
        r@ == account_text(a@),
{
    let mut s = String::from_str("Account { id: ");
    s.append(debug_string(a.id.as_str()).as_str());
    s.append(", nfts: [");
    s.append(joined_string(&a.nfts).as_str());
    s.append("], created_at: ");
    s.append(signed_decimal_string(a.created_at).as_str());
    s.append(" }");
    s
}

/// Writes the canonical text of a transaction.
pub fn transaction_string(tx: &Transaction) -> (r: String)
    ensures
        r@ == transaction_text(tx@),
{
    match tx {
        Transaction::CreateAccount(a) => {
            let mut s = String::from_str("CreateAccount(");
            s.append(account_string(a).as_str());
            s.append(")");
            s
        },
        Transaction::MintNFT(n) => {
            let mut s = String::from_str("MintNFT(");
            s.append(nft_string(n).as_str());
            s.append(")");
            s
        },
        Transaction::Transfer { nft_id, from, to } => {
            let mut s = String::from_str("Transfer { nft_id: ");
            s.append(debug_string(nft_id.as_str()).as_str());
            s.append(", from: ");
            s.append(debug_string(from.as_str()).as_str());
            s.append(", to: ");
            s.append(debug_string(to.as_str()).as_str());
            s.append(" }");
            s
        },
    }
}

} // verus!
