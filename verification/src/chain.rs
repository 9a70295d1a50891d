//! The chain together with the ledger it gives rise to, as a mathematical
//! value: what holds of it at every moment, and how it grows.

use crate::block::BlockView;
use crate::ledger::{
    lemma_create_account_consistent, lemma_mint_consistent, lemma_transfer_consistent, LedgerView,
};
use crate::model::{AccountView, DocumentView, LedgerError, NftView, TransactionView};
use crate::text::{decimal_text, lemma_decimal_injective};
use vstd::prelude::*;

verus! {

/// The id of the account that the first block creates.
pub open spec fn genesis_id() -> Seq<char> {
    "genesis"@
}

/// What the first block holds in place of a previous hash.
pub open spec fn genesis_previous_hash() -> Seq<char> {
    "0"@
}

/// The account that the first block creates.
pub open spec fn genesis_account(now: i64) -> AccountView {
    AccountView { id: genesis_id(), nfts: Seq::empty(), created_at: now }
}

/// The id of the asset that block `index` mints.
pub open spec fn nft_id_text(index: nat) -> Seq<char> {
    "nft_"@ + decimal_text(index)
}

/// The transactions of a run of blocks, in order.
pub open spec fn transactions(blocks: Seq<BlockView>) -> Seq<TransactionView> {
    blocks.map_values(|b: BlockView| b.data)
}

/// Blocks mint assets under different ids.
pub proof fn lemma_nft_id_injective(a: nat, b: nat)
    requires
        nft_id_text(a) == nft_id_text(b),
    ensures
        a == b,
{
    let prefix = "nft_"@;
    let n = prefix.len() as int;
    assert(decimal_text(a) =~= nft_id_text(a).subrange(n, nft_id_text(a).len() as int));
    assert(decimal_text(b) =~= nft_id_text(b).subrange(n, nft_id_text(b).len() as int));
    lemma_decimal_injective(a, b);
}

/// The chain, the proof-of-work target and the account and asset tables.
pub struct ChainView {
    pub blocks: Seq<BlockView>,
    pub difficulty: u32,
    pub ledger: LedgerView,
}

impl ChainView {
    /// The chain starts with the genesis block, each block carries its
    /// position as index, and each later block the hash of the one before.
    pub open spec fn linked(self) -> bool {
        &&& self.blocks.len() >= 1
        &&& self.blocks[0].previous_hash == genesis_previous_hash()
        &&& self.blocks[0].data == TransactionView::CreateAccount(
            genesis_account(self.blocks[0].timestamp),
        )
        &&& forall|i: int| 0 <= i < self.blocks.len() ==> (#[trigger] self.blocks[i]).index == i
        &&& forall|i: int|
            0 < i < self.blocks.len() ==> (#[trigger] self.blocks[i]).previous_hash
                == self.blocks[i - 1].hash
    }

    /// Every block's stored hash is the hash of its other fields.
    pub open spec fn sealed(self) -> bool {
        forall|i: int| 0 <= i < self.blocks.len() ==> (#[trigger] self.blocks[i]).sealed()
    }

    /// The tables are what the chain's transactions, applied in order to
    /// empty tables, give.
    pub open spec fn replayed(self) -> bool {
        self.ledger == LedgerView::empty().apply_all(transactions(self.blocks))
    }

    /// Every asset carries the id of a block of the chain.
    pub open spec fn ids_issued(self) -> bool {
        forall|id: Seq<char>| #[trigger]
            self.ledger.nfts.contains_key(id) ==> exists|n: nat|
                n < self.blocks.len() && id == #[trigger] nft_id_text(n)
    }

    /// What holds of the chain and the tables between any two operations.
    #[verifier::opaque]
    pub open spec fn wf(self) -> bool {
        &&& self.linked()
        &&& self.sealed()
        &&& self.replayed()
        &&& self.ids_issued()
        &&& self.ledger.consistent()
    }

    /// The chain of a new engine started at time `now`: the genesis block
    /// alone, and the genesis account alone.
    pub open spec fn genesis(now: i64) -> ChainView {
        let tx = TransactionView::CreateAccount(genesis_account(now));
        ChainView {
            blocks: seq![BlockView::seal(0, now, tx, genesis_previous_hash())],
            difficulty: 4,
            ledger: LedgerView::empty().apply(tx),
        }
    }

    /// The block that seals `tx` at time `now` as the next of this chain.
    pub open spec fn next_block(self, tx: TransactionView, now: i64) -> BlockView {
        BlockView::seal(self.blocks.len() as u64, now, tx, self.blocks.last().hash)
    }

    /// The chain after `tx` is sealed at time `now`: one more block, and the
    /// tables after the transaction.
    pub open spec fn append(self, tx: TransactionView, now: i64) -> ChainView {
        ChainView {
            blocks: self.blocks.push(self.next_block(tx, now)),
            difficulty: self.difficulty,
            ledger: self.ledger.apply(tx),
        }
    }

    /// The account that `create_account` files for `id` at time `now`.
    pub open spec fn new_account(id: Seq<char>, now: i64) -> AccountView {
        AccountView { id, nfts: Seq::empty(), created_at: now }
    }

    /// The asset that the next block mints from what a caller supplies.
    pub open spec fn new_asset(
        self,
        name: Seq<char>,
        description: Seq<char>,
        owner: Seq<char>,
        metadata: DocumentView,
        now: i64,
    ) -> NftView {
        NftView {
            id: nft_id_text(self.blocks.len()),
            name,
            description,
            owner,
            metadata,
            created_at: now,
        }
    }

    /// `create_account` succeeded: no account had the id, `a` is the new
    /// account, and `post` is this chain with the creation sealed.
    pub open spec fn account_created(
        self,
        id: Seq<char>,
        now: i64,
        a: AccountView,
        post: ChainView,
    ) -> bool {
        &&& !self.ledger.accounts.contains_key(id)
        &&& a == Self::new_account(id, now)
        &&& post == self.append(TransactionView::CreateAccount(a), now)
    }

    /// `create_account` failed: the id was taken, and nothing changed.
    pub open spec fn account_refused(self, id: Seq<char>, e: LedgerError, post: ChainView) -> bool {
        &&& self.ledger.accounts.contains_key(id)
        &&& e == LedgerError::DuplicateAccount
        &&& post == self
    }

    /// `mint_nft` succeeded: the owner is an account, `n` is the new asset,
    /// and `post` is this chain with the minting sealed.
    pub open spec fn asset_minted(self, n: NftView, post: ChainView) -> bool {
        &&& self.ledger.accounts.contains_key(n.owner)
        &&& n.id == nft_id_text(self.blocks.len())
        &&& post == self.append(TransactionView::MintNFT(n), n.created_at)
    }

    /// `mint_nft` failed: the owner is no account, and nothing changed.
    pub open spec fn mint_refused(self, owner: Seq<char>, e: LedgerError, post: ChainView) -> bool {
        &&& !self.ledger.accounts.contains_key(owner)
        &&& e == LedgerError::UnknownAccount
        &&& post == self
    }

    /// `transfer_nft` succeeded: every check passed, `post` is this chain
    /// with the transfer sealed, and `n` is the asset with its new owner.
    pub open spec fn asset_transferred(
        self,
        nft_id: Seq<char>,
        from: Seq<char>,
        to: Seq<char>,
        now: i64,
        n: NftView,
        post: ChainView,
    ) -> bool {
        &&& self.transfer_refusal(nft_id, from, to) is None
        &&& post == self.append(TransactionView::Transfer { nft_id, from, to }, now)
        &&& n == NftView { owner: to, ..self.ledger.nfts[nft_id] }
    }

    /// `transfer_nft` failed with the first check that did not pass, and
    /// nothing changed.
    pub open spec fn transfer_refused(
        self,
        nft_id: Seq<char>,
        from: Seq<char>,
        to: Seq<char>,
        e: LedgerError,
        post: ChainView,
    ) -> bool {
        &&& self.transfer_refusal(nft_id, from, to) == Some(e)
        &&& post == self
    }

    /// Why a transfer is refused, if it is: the checks in their order.
    pub open spec fn transfer_refusal(self, nft_id: Seq<char>, from: Seq<char>, to: Seq<char>)
        -> Option<LedgerError> {
        if !self.ledger.accounts.contains_key(from) {
            Some(LedgerError::UnknownAccount)
        } else if !self.ledger.accounts.contains_key(to) {
            Some(LedgerError::UnknownAccount)
        } else if !self.ledger.nfts.contains_key(nft_id) {
            Some(LedgerError::UnknownAsset)
        } else if self.ledger.nfts[nft_id].owner != from {
            Some(LedgerError::NotOwner)
        } else {
            None
        }
    }
}

/// A well-formed chain has a block.
pub proof fn lemma_wf_nonempty(s: ChainView)
    requires
        s.wf(),
    ensures
        s.blocks.len() >= 1,
{
    reveal(ChainView::wf);
}

/// A new engine's chain is well formed.
pub proof fn lemma_genesis_wf(now: i64)
    ensures
        ChainView::genesis(now).wf(),
{
    reveal(ChainView::wf);
    let g = ChainView::genesis(now);
    let tx = TransactionView::CreateAccount(genesis_account(now));
    let txs = transactions(g.blocks);
    assert(txs =~= seq![tx]);
    assert(txs.drop_last() =~= Seq::<TransactionView>::empty());
    assert(LedgerView::empty().apply_all(txs.drop_last()) == LedgerView::empty());
    assert(LedgerView::empty().apply_all(txs) == LedgerView::empty().apply(tx));
    lemma_create_account_consistent(LedgerView::empty(), genesis_account(now));
}

/// Sealing one more transaction keeps the links, the seals and the
/// agreement of tables and chain, whatever the transaction.
pub proof fn lemma_append_keeps_chain(s: ChainView, tx: TransactionView, now: i64)
    requires
        s.linked(),
        s.sealed(),
        s.replayed(),
        s.blocks.len() <= u64::MAX,
    ensures
        s.append(tx, now).linked(),
        s.append(tx, now).sealed(),
        s.append(tx, now).replayed(),
{
    let post = s.append(tx, now);
    let txs = transactions(post.blocks);
    assert(txs.drop_last() =~= transactions(s.blocks));
    assert(txs.last() == tx);
    assert forall|i: int| 0 <= i < post.blocks.len() implies (#[trigger] post.blocks[i]).sealed() by {
        if i < s.blocks.len() {
            assert(s.blocks[i].sealed());
        }
    }
    assert forall|i: int| 0 <= i < post.blocks.len() implies (#[trigger] post.blocks[i]).index
        == i by {
        if i < s.blocks.len() {
            assert(s.blocks[i].index == i);
        }
    }
    assert forall|i: int| 0 < i < post.blocks.len() implies (#[trigger] post.blocks[i]).previous_hash
        == post.blocks[i - 1].hash by {
        if i < s.blocks.len() {
            assert(s.blocks[i].previous_hash == s.blocks[i - 1].hash);
        }
    }
}

/// Every id issued so far is still issued after one more block.
pub proof fn lemma_append_keeps_ids(s: ChainView, tx: TransactionView, now: i64)
    requires
        s.ids_issued(),
        match tx {
            TransactionView::MintNFT(n) => n.id == nft_id_text(s.blocks.len()),
            _ => true,
        },
    ensures
        s.append(tx, now).ids_issued(),
{
    let post = s.append(tx, now);
    assert forall|id: Seq<char>| #[trigger] post.ledger.nfts.contains_key(id) implies exists|n: nat|
        n < post.blocks.len() && id == #[trigger] nft_id_text(n) by {
        if s.ledger.nfts.contains_key(id) {
            let n = choose|n: nat| n < s.blocks.len() && id == #[trigger] nft_id_text(n);
            assert(n < post.blocks.len() && id == nft_id_text(n));
        } else {
            let n = s.blocks.len();
            assert(n < post.blocks.len() && id == nft_id_text(n));
        }
    }
}

/// No asset carries the id that the next block would mint.
pub proof fn lemma_next_id_fresh(s: ChainView)
    requires
        s.ids_issued(),
    ensures
        !s.ledger.nfts.contains_key(nft_id_text(s.blocks.len())),
{
    let id = nft_id_text(s.blocks.len());
    if s.ledger.nfts.contains_key(id) {
        let n = choose|n: nat| n < s.blocks.len() && id == #[trigger] nft_id_text(n);
        lemma_nft_id_injective(n, s.blocks.len());
    }
}

/// Creating an account that does not exist yet keeps the chain well formed.
pub proof fn lemma_create_account_wf(s: ChainView, id: Seq<char>, now: i64)
    requires
        s.wf(),
        s.blocks.len() <= u64::MAX,
        !s.ledger.accounts.contains_key(id),
    ensures
        s.append(TransactionView::CreateAccount(ChainView::new_account(id, now)), now).wf(),
{
    reveal(ChainView::wf);
    let tx = TransactionView::CreateAccount(ChainView::new_account(id, now));
    lemma_append_keeps_chain(s, tx, now);
    lemma_append_keeps_ids(s, tx, now);
    lemma_create_account_consistent(s.ledger, ChainView::new_account(id, now));
}

/// Minting the next asset for an existing account keeps the chain well
/// formed.
pub proof fn lemma_mint_wf(s: ChainView, n: NftView, now: i64)
    requires
        s.wf(),
        s.blocks.len() <= u64::MAX,
        s.ledger.accounts.contains_key(n.owner),
        n.id == nft_id_text(s.blocks.len()),
    ensures
        s.append(TransactionView::MintNFT(n), now).wf(),
{
    reveal(ChainView::wf);
    let tx = TransactionView::MintNFT(n);
    lemma_append_keeps_chain(s, tx, now);
    lemma_append_keeps_ids(s, tx, now);
    lemma_next_id_fresh(s);
    lemma_mint_consistent(s.ledger, n);
}

/// A transfer that passes the checks keeps the chain well formed.
pub proof fn lemma_transfer_wf(
    s: ChainView,
    nft_id: Seq<char>,
    from: Seq<char>,
    to: Seq<char>,
    now: i64,
)
    requires
        s.wf(),
        s.blocks.len() <= u64::MAX,
        s.transfer_refusal(nft_id, from, to) is None,
    ensures
        s.append(TransactionView::Transfer { nft_id, from, to }, now).wf(),
{
    reveal(ChainView::wf);
    let tx = TransactionView::Transfer { nft_id, from, to };
    lemma_append_keeps_chain(s, tx, now);
    lemma_append_keeps_ids(s, tx, now);
    lemma_transfer_consistent(s.ledger, nft_id, from, to);
}

} // verus!
