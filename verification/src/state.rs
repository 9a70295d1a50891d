//! The account and asset tables, and the transactions applied to them.

use crate::block::{Block, BlockView};
use crate::chain::transactions;
use crate::ledger::{lemma_without_push, without, LedgerView};
use crate::model::{
    copy_strings, texts, Account, AccountView, NftView, Transaction, TransactionView, NFT,
};
use vstd::hash_map::StringHashMap;
use vstd::prelude::*;

verus! {

/// What a list of blocks holds.
pub open spec fn block_views(v: Seq<Block>) -> Seq<BlockView> {
    v.map_values(|b: Block| b@)
}

/// What a list of assets holds.
pub open spec fn nft_views(v: Seq<NFT>) -> Seq<NftView> {
    v.map_values(|n: NFT| n@)
}

/// Copies `ids` without every occurrence of `id`.
pub fn strings_without(ids: &Vec<String>, id: &String) -> (r: Vec<String>)
    ensures
        texts(r@) == without(texts(ids@), id@),
{
    let mut r: Vec<String> = Vec::new();
    let ghost all = texts(ids@);
    let mut i: usize = 0;
    proof {
        reveal(Seq::filter);
        assert(all.take(0) =~= Seq::<Seq<char>>::empty());
        assert(texts(r@) =~= without(all.take(0), id@));
    }
    while i < ids.len()
        invariant
            i <= ids.len(),
            all == texts(ids@),
            texts(r@) == without(all.take(i as int), id@),
        decreases ids.len() - i,
    {
        proof {
            let before = all.take(i as int);
            lemma_without_push(before, all[i as int], id@);
            assert(before.push(all[i as int]) =~= all.take(i + 1));
        }
        let ghost kept = r@;
        if !(ids[i] == *id) {
            r.push(ids[i].clone());
            assert(texts(r@) =~= texts(kept).push(all[i as int]));
        }
        i += 1;
    }
    assert(all.take(ids.len() as int) =~= all);
    r
}

/// What a table of accounts holds.
pub open spec fn account_views(m: Map<Seq<char>, Account>) -> Map<Seq<char>, AccountView> {
    m.map_values(|a: Account| a@)
}

/// What a table of assets holds.
pub open spec fn nft_table(m: Map<Seq<char>, NFT>) -> Map<Seq<char>, NftView> {
    m.map_values(|n: NFT| n@)
}

fn file_account(accounts: &mut StringHashMap<Account>, key: String, account: Account)
    ensures
        account_views(final(accounts)@) == account_views(old(accounts)@).insert(key@, account@),
{
    accounts.insert(key, account);
    assert(account_views(accounts@) =~= account_views(old(accounts)@).insert(key@, account@));
}

fn file_nft(nfts: &mut StringHashMap<NFT>, key: String, nft: NFT)
    ensures
        nft_table(final(nfts)@) == nft_table(old(nfts)@).insert(key@, nft@),
{
    nfts.insert(key, nft);
    assert(nft_table(nfts@) =~= nft_table(old(nfts)@).insert(key@, nft@));
}

fn find_account<'a>(accounts: &'a StringHashMap<Account>, id: &str) -> (r: Option<&'a Account>)
    ensures
        match r {
            Some(a) => account_views(accounts@).contains_key(id@) && a@ == account_views(
                accounts@,
            )[id@],
            None => !account_views(accounts@).contains_key(id@),
        },
{
    accounts.get(id)
}

fn find_nft<'a>(nfts: &'a StringHashMap<NFT>, id: &str) -> (r: Option<&'a NFT>)
    ensures
        match r {
            Some(n) => nft_table(nfts@).contains_key(id@) && n@ == nft_table(nfts@)[id@],
            None => !nft_table(nfts@).contains_key(id@),
        },
{
    nfts.get(id)
}

/// A copy of `account` with `id` appended to its list.
fn with_asset(account: &Account, id: &String) -> (r: Account)
    ensures
        r@ == (AccountView { nfts: account@.nfts.push(id@), ..account@ }),
{
    let mut held = copy_strings(&account.nfts);
    let ghost before = held@;
    held.push(id.clone());
    assert(texts(held@) =~= texts(before).push(id@));
    Account { id: account.id.clone(), nfts: held, created_at: account.created_at }
}

/// A copy of `account` with `id` taken off its list.
fn without_asset(account: &Account, id: &String) -> (r: Account)
    ensures
        r@ == (AccountView { nfts: without(account@.nfts, id@), ..account@ }),
{
    Account {
        id: account.id.clone(),
        nfts: strings_without(&account.nfts, id),
        created_at: account.created_at,
    }
}

/// A copy of `nft` with `owner` as its owner.
pub(crate) fn with_owner(nft: &NFT, owner: &String) -> (r: NFT)
    ensures
        r@ == (NftView { owner: owner@, ..nft@ }),
{
    NFT {
        id: nft.id.clone(),
        name: nft.name.clone(),
        description: nft.description.clone(),
        owner: owner.clone(),
        metadata: nft.metadata.clone(),
        created_at: nft.created_at,
    }
}

/// The account and asset tables.
pub struct Ledger {
    accounts: StringHashMap<Account>,
    nfts: StringHashMap<NFT>,
}

impl View for Ledger {
    type V = LedgerView;

    closed spec fn view(&self) -> LedgerView {
        LedgerView { accounts: account_views(self.accounts@), nfts: nft_table(self.nfts@) }
    }
}

impl Ledger {
    /// Empty tables.
    pub fn new() -> (r: Ledger)
        ensures
            r@ == LedgerView::empty(),
    {
        let r = Ledger { accounts: StringHashMap::new(), nfts: StringHashMap::new() };
        assert(r@.accounts =~= LedgerView::empty().accounts);
        assert(r@.nfts =~= LedgerView::empty().nfts);
        r
    }

    /// The account filed under `id`, if there is one.
    pub fn account(&self, id: &str) -> (r: Option<&Account>)
        ensures
            match r {
                Some(a) => self@.accounts.contains_key(id@) && a@ == self@.accounts[id@],
                None => !self@.accounts.contains_key(id@),
            },
    {
        find_account(&self.accounts, id)
    }

    /// The asset filed under `id`, if there is one.
    pub fn nft(&self, id: &str) -> (r: Option<&NFT>)
        ensures
            match r {
                Some(n) => self@.nfts.contains_key(id@) && n@ == self@.nfts[id@],
                None => !self@.nfts.contains_key(id@),
            },
    {
        find_nft(&self.nfts, id)
    }

    /// Applies one transaction to the tables.
    pub fn apply(&mut self, tx: &Transaction)
        ensures
            final(self)@ == old(self)@.apply(tx@),
    {
        match tx {
            Transaction::CreateAccount(a) => {
                file_account(&mut self.accounts, a.id.clone(), a.clone());
            },
            Transaction::MintNFT(n) => {
                self.apply_mint(n);
            },
            Transaction::Transfer { nft_id, from, to } => {
                self.apply_transfer(nft_id, from, to);
            },
        }
    }

    fn apply_mint(&mut self, n: &NFT)
        ensures
            final(self)@ == old(self)@.mint(n@),
    {
        let updated = match find_account(&self.accounts, n.owner.as_str()) {
            Some(owner) => Some(with_asset(owner, &n.id)),
            None => None,
        };
        match updated {
            Some(account) => {
                file_account(&mut self.accounts, n.owner.clone(), account);
            },
            None => {},
        }
        file_nft(&mut self.nfts, n.id.clone(), n.clone());
    }

    fn apply_transfer(&mut self, nft_id: &String, from: &String, to: &String)
        ensures
            final(self)@ == old(self)@.transfer(nft_id@, from@, to@),
    {
        let moved = match find_nft(&self.nfts, nft_id.as_str()) {
            Some(nft) => Some(with_owner(nft, to)),
            None => None,
        };
        match moved {
            Some(nft) => {
                file_nft(&mut self.nfts, nft_id.clone(), nft);
            },
            None => {},
        }
        let sender = match find_account(&self.accounts, from.as_str()) {
            Some(account) => Some(without_asset(account, nft_id)),
            None => None,
        };
        match sender {
            Some(account) => {
                file_account(&mut self.accounts, from.clone(), account);
            },
            None => {},
        }
        let receiver = match find_account(&self.accounts, to.as_str()) {
            Some(account) => Some(with_asset(account, nft_id)),
            None => None,
        };
        match receiver {
            Some(account) => {
                file_account(&mut self.accounts, to.clone(), account);
            },
            None => {},
        }
    }

    /// The tables that the transactions of `blocks`, applied in order to
    /// empty tables, give.
    pub fn replay(blocks: &Vec<Block>) -> (r: Ledger)
        ensures
            r@ == LedgerView::empty().apply_all(transactions(block_views(blocks@))),
    {
        let mut ledger = Ledger::new();
        let ghost txs = transactions(block_views(blocks@));
        let mut i: usize = 0;
        assert(txs.take(0) =~= Seq::<TransactionView>::empty());
        while i < blocks.len()
            invariant
                i <= blocks.len(),
                txs == transactions(block_views(blocks@)),
                ledger@ == LedgerView::empty().apply_all(txs.take(i as int)),
            decreases blocks.len() - i,
        {
            proof {
                assert(txs.take(i + 1).drop_last() =~= txs.take(i as int));
                assert(txs.take(i + 1).last() == blocks@[i as int].data@);
            }
            ledger.apply(&blocks[i].data);
            i += 1;
        }
        assert(txs.take(blocks.len() as int) =~= txs);
        ledger
    }
}

} // verus!
