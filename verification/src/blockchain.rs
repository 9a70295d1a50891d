//! The ledger engine: the chain and the tables it gives rise to, behind the
//! four operations that read and change them.

use crate::block::Block;
use crate::chain::{
    genesis_account, lemma_create_account_wf, lemma_genesis_wf, lemma_mint_wf, lemma_transfer_wf,
    lemma_wf_nonempty, ChainView,
};
use crate::clock::now_timestamp;
use crate::model::{
    texts, Account, CreateNFTRequest, LedgerError, NftView, Transaction, TransferNFTRequest, NFT,
};
use crate::state::{block_views, nft_views, with_owner, Ledger};
use crate::text::decimal_string;
use vstd::prelude::*;
use vstd::string::*;

verus! {

/// The chain, the proof-of-work target and the tables. An engine is built
/// by [`Blockchain::new`] and changed only by its own operations, so its
/// view is well formed whenever a caller holds it.
pub struct Blockchain {
    chain: Vec<Block>,
    difficulty: u32,
    ledger: Ledger,
}

impl View for Blockchain {
    type V = ChainView;

    closed spec fn view(&self) -> ChainView {
        ChainView {
            blocks: block_views(self.chain@),
            difficulty: self.difficulty,
            ledger: self.ledger@,
        }
    }
}

impl Blockchain {
    /// A new engine, started at the current time: the genesis block and the
    /// genesis account.
    pub fn new() -> (r: Blockchain)
        ensures
            r@.blocks.len() == 1,
            r@ == ChainView::genesis(r@.blocks[0].timestamp),
            r@.wf(),
    {
        Blockchain::new_at(now_timestamp())
    }

    /// A new engine, started at time `now`.
    pub fn new_at(now: i64) -> (r: Blockchain)
        ensures
            r@ == ChainView::genesis(now),
            r@.wf(),
    {
        let genesis = Account { id: String::from_str("genesis"), nfts: Vec::new(), created_at: now };
        assert(genesis@ == genesis_account(now)) by {
            assert(texts(genesis.nfts@) =~= Seq::<Seq<char>>::empty());
        }
        let tx = Transaction::CreateAccount(genesis);
        let mut ledger = Ledger::new();
        ledger.apply(&tx);
        let mut chain: Vec<Block> = Vec::new();
        chain.push(Block::sealed_at(0, now, tx, String::from_str("0")));
        let r = Blockchain { chain, difficulty: 4, ledger };
        proof {
            assert(r@.blocks =~= ChainView::genesis(now).blocks);
            lemma_genesis_wf(now);
        }
        r
    }

    /// The blocks, from the genesis block to the newest.
    pub fn chain(&self) -> (r: &Vec<Block>)
        ensures
            block_views(r@) == self@.blocks,
    {
        &self.chain
    }

    /// The account and asset tables.
    pub fn ledger(&self) -> (r: &Ledger)
        ensures
            r@ == self@.ledger,
    {
        &self.ledger
    }

    /// The number of leading zeros that mining a block of this chain asks of
    /// its hash.
    pub fn difficulty(&self) -> (r: u32)
        ensures
            r == self@.difficulty,
    {
        self.difficulty
    }

    /// Applies `tx` to the tables and seals it at time `now` as the next
    /// block.
    fn commit(&mut self, tx: Transaction, now: i64)
        requires
            old(self)@.blocks.len() >= 1,
        ensures
            final(self)@ == old(self)@.append(tx@, now),
    {
        self.ledger.apply(&tx);
        let block = Block::sealed_at(
            self.chain.len() as u64,
            now,
            tx,
            self.chain[self.chain.len() - 1].hash.clone(),
        );
        self.chain.push(block);
        assert(self@.blocks =~= old(self)@.append(tx@, now).blocks);
    }

    /// Creates the account `account_id`, stamped with the current time.
    ///
    /// Fails with `DuplicateAccount`, changing nothing, exactly if an
    /// account has that id already.
    pub fn create_account(&mut self, account_id: String) -> (r: Result<Account, LedgerError>)
        requires
            old(self)@.wf(),
        ensures
            final(self)@.wf(),
            match r {
                Ok(a) => old(self)@.account_created(account_id@, a.created_at, a@, final(self)@),
                Err(e) => old(self)@.account_refused(account_id@, e, final(self)@),
            },
    {
        self.create_account_at(account_id, now_timestamp())
    }

    /// Creates the account `account_id` at time `now`: files it with an
    /// empty list of assets and seals the creation as the next block.
    ///
    /// Fails with `DuplicateAccount`, changing nothing, exactly if an
    /// account has that id already.
    pub fn create_account_at(&mut self, account_id: String, now: i64) -> (r: Result<
        Account,
        LedgerError,
    >)
        requires
            old(self)@.wf(),
        ensures
            final(self)@.wf(),
            match r {
                Ok(a) => old(self)@.account_created(account_id@, now, a@, final(self)@),
                Err(e) => old(self)@.account_refused(account_id@, e, final(self)@),
            },
    {
        if self.ledger.account(account_id.as_str()).is_some() {
            return Err(LedgerError::DuplicateAccount);
        }
        let account = Account { id: account_id, nfts: Vec::new(), created_at: now };
        assert(account@ == ChainView::new_account(account_id@, now)) by {
            assert(texts(account.nfts@) =~= Seq::<Seq<char>>::empty());
        }
        proof {
            lemma_wf_nonempty(self@);
            assert(self@.blocks.len() == self.chain.len());
        }
        self.commit(Transaction::CreateAccount(account.clone()), now);
        proof {
            lemma_create_account_wf(old(self)@, account_id@, now);
        }
        Ok(account)
    }

    /// Mints an asset for `request.owner`, stamped with the current time.
    ///
    /// Fails with `UnknownAccount`, changing nothing, exactly if the owner
    /// is no account.
    pub fn mint_nft(&mut self, request: CreateNFTRequest) -> (r: Result<NFT, LedgerError>)
        requires
            old(self)@.wf(),
        ensures
            final(self)@.wf(),
            match r {
                Ok(n) => {
                    &&& n@ == old(self)@.new_asset(
                        request.name@,
                        request.description@,
                        request.owner@,
                        request.metadata@,
                        n.created_at,
                    )
                    &&& old(self)@.asset_minted(n@, final(self)@)
                },
                Err(e) => old(self)@.mint_refused(request.owner@, e, final(self)@),
            },
    {
        self.mint_nft_at(request, now_timestamp())
    }

    /// Mints an asset for `request.owner` at time `now`: the asset takes the
    /// id `nft_` followed by the index of the block that seals the minting,
    /// so no two assets share an id; it is filed, and its id is appended to
    /// the owner's list.
    ///
    /// Fails with `UnknownAccount`, changing nothing, exactly if the owner
    /// is no account.
    pub fn mint_nft_at(&mut self, request: CreateNFTRequest, now: i64) -> (r: Result<
        NFT,
        LedgerError,
    >)
        requires
            old(self)@.wf(),
        ensures
            final(self)@.wf(),
            match r {
                Ok(n) => {
                    &&& n@ == old(self)@.new_asset(
                        request.name@,
                        request.description@,
                        request.owner@,
                        request.metadata@,
                        now,
                    )
                    &&& old(self)@.asset_minted(n@, final(self)@)
                },
                Err(e) => old(self)@.mint_refused(request.owner@, e, final(self)@),
            },
    {
        if self.ledger.account(request.owner.as_str()).is_none() {
            return Err(LedgerError::UnknownAccount);
        }
        let mut nft_id = String::from_str("nft_");
        nft_id.append(decimal_string(self.chain.len() as u64).as_str());
        let nft = NFT {
            id: nft_id,
            name: request.name,
            description: request.description,
            owner: request.owner,
            metadata: request.metadata,
            created_at: now,
        };
        proof {
            lemma_wf_nonempty(self@);
            assert(self@.blocks.len() == self.chain.len());
        }
        self.commit(Transaction::MintNFT(nft.clone()), now);
        proof {
            lemma_mint_wf(old(self)@, nft@, now);
        }
        Ok(nft)
    }

    /// Transfers an asset between two accounts, stamped with the current
    /// time.
    ///
    /// The checks, in order: the sender is an account and the receiver is
    /// one (else `UnknownAccount`), the asset exists (else `UnknownAsset`),
    /// the sender owns it (else `NotOwner`). A failure changes nothing.
    pub fn transfer_nft(&mut self, request: TransferNFTRequest) -> (r: Result<NFT, LedgerError>)
        requires
            old(self)@.wf(),
        ensures
            final(self)@.wf(),
            match r {
                Ok(n) => old(self)@.asset_transferred(
                    request.nft_id@,
                    request.from@,
                    request.to@,
                    final(self)@.blocks.last().timestamp,
                    n@,
                    final(self)@,
                ),
                Err(e) => old(self)@.transfer_refused(
                    request.nft_id@,
                    request.from@,
                    request.to@,
                    e,
                    final(self)@,
                ),
            },
    {
        self.transfer_nft_at(request, now_timestamp())
    }

    /// Transfers an asset between two accounts at time `now`: seals the
    /// transfer as the next block, makes the receiver the asset's owner,
    /// takes the id off the sender's list and appends it to the receiver's.
    /// Returns the asset with its new owner.
    ///
    /// The checks, in order: the sender is an account and the receiver is
    /// one (else `UnknownAccount`), the asset exists (else `UnknownAsset`),
    /// the sender owns it (else `NotOwner`). A failure changes nothing.
    pub fn transfer_nft_at(&mut self, request: TransferNFTRequest, now: i64) -> (r: Result<
        NFT,
        LedgerError,
    >)
        requires
            old(self)@.wf(),
        ensures
            final(self)@.wf(),
            match r {
                Ok(n) => old(self)@.asset_transferred(
                    request.nft_id@,
                    request.from@,
                    request.to@,
                    now,
                    n@,
                    final(self)@,
                ),
                Err(e) => old(self)@.transfer_refused(
                    request.nft_id@,
                    request.from@,
                    request.to@,
                    e,
                    final(self)@,
                ),
            },
    {
        if self.ledger.account(request.from.as_str()).is_none() {
            return Err(LedgerError::UnknownAccount);
        }
        if self.ledger.account(request.to.as_str()).is_none() {
            return Err(LedgerError::UnknownAccount);
        }
        let moved = match self.ledger.nft(request.nft_id.as_str()) {
            None => {
                return Err(LedgerError::UnknownAsset);
            },
            Some(nft) => {
                if !(nft.owner == request.from) {
                    return Err(LedgerError::NotOwner);
                }
                with_owner(nft, &request.to)
            },
        };
        proof {
            lemma_wf_nonempty(self@);
            assert(self@.blocks.len() == self.chain.len());
        }
        self.commit(
            Transaction::Transfer { nft_id: request.nft_id, from: request.from, to: request.to },
            now,
        );
        proof {
            lemma_transfer_wf(old(self)@, request.nft_id@, request.from@, request.to@, now);
        }
        Ok(moved)
    }

    /// The assets that the account `account_id` lists, in the order of its
    /// list. A listed id that names no asset is passed over.
    ///
    /// Fails with `UnknownAccount` exactly if there is no such account.
    pub fn get_account_nfts(&self, account_id: &str) -> (r: Result<Vec<NFT>, LedgerError>)
        ensures
            match r {
                Ok(v) => {
                    &&& self@.ledger.accounts.contains_key(account_id@)
                    &&& nft_views(v@) == self@.ledger.assets_named(
                        self@.ledger.accounts[account_id@].nfts,
                    )
                },
                Err(e) => {
                    &&& !self@.ledger.accounts.contains_key(account_id@)
                    &&& e == LedgerError::UnknownAccount
                },
            },
    {
        match self.ledger.account(account_id) {
            None => Err(LedgerError::UnknownAccount),
            Some(account) => {
                let mut found: Vec<NFT> = Vec::new();
                let ghost ids = texts(account.nfts@);
                let mut i: usize = 0;
                assert(ids.take(0) =~= Seq::<Seq<char>>::empty());
                assert(nft_views(found@) =~= Seq::<NftView>::empty());
                while i < account.nfts.len()
                    invariant
                        i <= account.nfts.len(),
                        ids == texts(account.nfts@),
                        nft_views(found@) == self@.ledger.assets_named(ids.take(i as int)),
                    decreases account.nfts.len() - i,
                {
                    let ghost before = found@;
                    proof {
                        assert(ids.take(i + 1).drop_last() =~= ids.take(i as int));
                        assert(ids.take(i + 1).last() == account.nfts@[i as int]@);
                    }
                    match self.ledger.nft(account.nfts[i].as_str()) {
                        Some(nft) => {
                            found.push(nft.clone());
                            assert(nft_views(found@) =~= nft_views(before).push(nft@));
                        },
                        None => {},
                    }
                    i += 1;
                }
                assert(ids.take(account.nfts.len() as int) =~= ids);
                Ok(found)
            },
        }
    }
}

} // verus!
