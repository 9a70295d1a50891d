//! Accounts, assets and the transactions that create and move them.

use vstd::prelude::*;

verus! {

/// The texts of a sequence of strings.
pub open spec fn texts(v: Seq<String>) -> Seq<Seq<char>> {
    v.map_values(|s: String| s@)
}

/// Copies a list of strings.
pub fn copy_strings(v: &Vec<String>) -> (r: Vec<String>)
    ensures
        texts(r@) == texts(v@),
{
    let mut r: Vec<String> = Vec::new();
    let mut i: usize = 0;
    while i < v.len()
        invariant
            i <= v.len(),
            r@.len() == i,
            forall|j: int| 0 <= j < i ==> r@[j]@ == v@[j]@,
        decreases v.len() - i,
    {
        r.push(v[i].clone());
        i += 1;
    }
    assert(texts(r@) =~= texts(v@));
    r
}

/// The record attached to an asset. The ledger copies it and never reads it.
#[derive(Debug)]
pub struct NftDocument {
    pub id: String,
    pub document_type: u32,
    pub image: String,
    pub date_added: String,
    pub profile_type: String,
}

/// What an [`NftDocument`] holds.
pub struct DocumentView {
    pub id: Seq<char>,
    pub document_type: u32,
    pub image: Seq<char>,
    pub date_added: Seq<char>,
    pub profile_type: Seq<char>,
}

impl View for NftDocument {
    type V = DocumentView;

    open spec fn view(&self) -> DocumentView {
        DocumentView {
            id: self.id@,
            document_type: self.document_type,
            image: self.image@,
            date_added: self.date_added@,
            profile_type: self.profile_type@,
        }
    }
}

impl Clone for NftDocument {
    fn clone(&self) -> (r: Self)
        ensures
            r@ == self@,
    {
        NftDocument {
            id: self.id.clone(),
            document_type: self.document_type,
            image: self.image.clone(),
            date_added: self.date_added.clone(),
            profile_type: self.profile_type.clone(),
        }
    }
}

/// A transferable asset.
#[derive(Debug)]
pub struct NFT {
    pub id: String,
    pub name: String,
    pub description: String,
    pub owner: String,
    pub metadata: NftDocument,
    pub created_at: i64,
}

/// What an [`NFT`] holds.
pub struct NftView {
    pub id: Seq<char>,
    pub name: Seq<char>,
    pub description: Seq<char>,
    pub owner: Seq<char>,
    pub metadata: DocumentView,
    pub created_at: i64,
}

impl View for NFT {
    type V = NftView;

    open spec fn view(&self) -> NftView {
        NftView {
            id: self.id@,
            name: self.name@,
            description: self.description@,
            owner: self.owner@,
            metadata: self.metadata@,
            created_at: self.created_at,
        }
    }
}

impl Clone for NFT {
    fn clone(&self) -> (r: Self)
        ensures
            r@ == self@,
    {
        NFT {
            id: self.id.clone(),
            name: self.name.clone(),
            description: self.description.clone(),
            owner: self.owner.clone(),
            metadata: self.metadata.clone(),
            created_at: self.created_at,
        }
    }
}

/// An account and the ids of the assets it holds, in the order in which it
/// acquired them.
#[derive(Debug)]
pub struct Account {
    pub id: String,
    pub nfts: Vec<String>,
    pub created_at: i64,
}

/// What an [`Account`] holds.
pub struct AccountView {
    pub id: Seq<char>,
    pub nfts: Seq<Seq<char>>,
    pub created_at: i64,
}

impl View for Account {
    type V = AccountView;

    open spec fn view(&self) -> AccountView {
        AccountView { id: self.id@, nfts: texts(self.nfts@), created_at: self.created_at }
    }
}

impl Clone for Account {
    fn clone(&self) -> (r: Self)
        ensures
            r@ == self@,
    {
        Account {
            id: self.id.clone(),
            nfts: copy_strings(&self.nfts),
            created_at: self.created_at,
        }
    }
}

/// One state change, as a block seals it.
#[derive(Debug)]
pub enum Transaction {
    CreateAccount(Account),
    MintNFT(NFT),
    Transfer { nft_id: String, from: String, to: String },
}

/// What a [`Transaction`] holds.
pub enum TransactionView {
    CreateAccount(AccountView),
    MintNFT(NftView),
    Transfer { nft_id: Seq<char>, from: Seq<char>, to: Seq<char> },
}

impl View for Transaction {
    type V = TransactionView;

    open spec fn view(&self) -> TransactionView {
        match self {
            Transaction::CreateAccount(a) => TransactionView::CreateAccount(a@),
            Transaction::MintNFT(n) => TransactionView::MintNFT(n@),
            Transaction::Transfer { nft_id, from, to } => TransactionView::Transfer {
                nft_id: nft_id@,
                from: from@,
                to: to@,
            },
        }
    }
}

impl Clone for Transaction {
    fn clone(&self) -> (r: Self)
        ensures
            r@ == self@,
    {
        match self {
            Transaction::CreateAccount(a) => Transaction::CreateAccount(a.clone()),
            Transaction::MintNFT(n) => Transaction::MintNFT(n.clone()),
            Transaction::Transfer { nft_id, from, to } => Transaction::Transfer {
                nft_id: nft_id.clone(),
                from: from.clone(),
                to: to.clone(),
            },
        }
    }
}

/// What a caller supplies to mint an asset.
#[derive(Debug)]
pub struct CreateNFTRequest {
    pub name: String,
    pub description: String,
    pub owner: String,
    pub metadata: NftDocument,
}

/// What a caller supplies to transfer an asset.
#[derive(Debug)]
pub struct TransferNFTRequest {
    pub from: String,
    pub to: String,
    pub nft_id: String,
}

/// Why the ledger refused an operation.
#[derive(Debug, Clone, Copy, PartialEq, Eq, Structural)]
pub enum LedgerError {
    /// An account with that id exists already.
    DuplicateAccount,
    /// No account has that id.
    UnknownAccount,
    /// No asset has that id.
    UnknownAsset,
    /// The asset belongs to another account than the sender.
    NotOwner,
}

} // verus!
