//! What holds of every chain that the engine can reach.

use crate::block::block_digest;
use crate::chain::{
    genesis_account, genesis_id, genesis_previous_hash, lemma_next_id_fresh, nft_id_text,
    transactions, ChainView,
};
use crate::ledger::LedgerView;
use crate::model::TransactionView;
use vstd::prelude::*;

verus! {

/// A new engine has one block, with index 0 and the genesis sentinel as its
/// previous hash, one account, `genesis`, with an empty list, and no asset.
pub proof fn genesis_has_one_block_and_one_account(now: i64)
    ensures
        ChainView::genesis(now).blocks.len() == 1,
        ChainView::genesis(now).blocks[0].index == 0,
        ChainView::genesis(now).blocks[0].previous_hash == genesis_previous_hash(),
        ChainView::genesis(now).blocks[0].sealed(),
        ChainView::genesis(now).ledger.accounts.dom() == set![genesis_id()],
        ChainView::genesis(now).ledger.accounts[genesis_id()] == genesis_account(now),
        ChainView::genesis(now).ledger.accounts[genesis_id()].nfts.len() == 0,
        ChainView::genesis(now).ledger.nfts.dom() == Set::<Seq<char>>::empty(),
{
    let g = ChainView::genesis(now);
    assert(g.ledger.accounts.dom() =~= set![genesis_id()]);
    assert(g.ledger.nfts.dom() =~= Set::<Seq<char>>::empty());
}

/// The first block has index 0 and the genesis sentinel as its previous
/// hash; every block carries its position as its index.
pub proof fn blocks_are_numbered(s: ChainView, i: int)
    requires
        s.wf(),
        0 <= i < s.blocks.len(),
    ensures
        s.blocks[0].previous_hash == genesis_previous_hash(),
        s.blocks[i].index == i,
{
    reveal(ChainView::wf);
}

/// Every block but the first holds the hash of the block before it.
pub proof fn blocks_are_linked(s: ChainView, i: int)
    requires
        s.wf(),
        0 < i < s.blocks.len(),
    ensures
        s.blocks[i].previous_hash == s.blocks[i - 1].hash,
{
    reveal(ChainView::wf);
}

/// Recomputing a block's hash from its fields gives the stored hash.
pub proof fn hashes_are_intact(s: ChainView, i: int)
    requires
        s.wf(),
        0 <= i < s.blocks.len(),
    ensures
        s.blocks[i].hash == block_digest(
            s.blocks[i].index,
            s.blocks[i].timestamp,
            s.blocks[i].data,
            s.blocks[i].previous_hash,
            s.blocks[i].nonce,
        ),
{
    reveal(ChainView::wf);
    assert(s.blocks[i].sealed());
}

/// Applying a run of transactions is applying the first and then the rest.
pub proof fn lemma_apply_all_first(l: LedgerView, txs: Seq<TransactionView>)
    requires
        txs.len() >= 1,
    ensures
        l.apply_all(txs) == l.apply(txs[0]).apply_all(txs.skip(1)),
    decreases txs.len(),
{
    let rest = txs.skip(1);
    if txs.len() == 1 {
        assert(txs.drop_last() =~= Seq::<TransactionView>::empty());
        assert(rest =~= Seq::<TransactionView>::empty());
        assert(l.apply_all(txs.drop_last()) == l);
    } else {
        lemma_apply_all_first(l, txs.drop_last());
        assert(rest.drop_last() =~= txs.drop_last().skip(1));
        assert(rest.last() == txs.last());
        assert(txs.drop_last()[0] == txs[0]);
    }
}

/// Replaying the whole chain against empty tables gives the engine's
/// tables.
pub proof fn ledger_is_replay_of_chain(s: ChainView)
    requires
        s.wf(),
    ensures
        s.ledger == LedgerView::empty().apply_all(transactions(s.blocks)),
{
    reveal(ChainView::wf);
}

/// Replaying the chain without its first block, against the tables that the
/// genesis block leaves, gives the engine's tables.
pub proof fn ledger_is_replay_after_genesis(s: ChainView)
    requires
        s.wf(),
    ensures
        s.ledger == LedgerView::empty().create_account(
            genesis_account(s.blocks[0].timestamp),
        ).apply_all(transactions(s.blocks.skip(1))),
{
    reveal(ChainView::wf);
    let txs = transactions(s.blocks);
    lemma_apply_all_first(LedgerView::empty(), txs);
    assert(txs.skip(1) =~= transactions(s.blocks.skip(1)));
}

/// Every account and every asset is filed under its own id, and every
/// asset's owner is an account.
pub proof fn entries_are_filed_under_their_ids(s: ChainView)
    requires
        s.wf(),
    ensures
        forall|k: Seq<char>| #[trigger]
            s.ledger.accounts.contains_key(k) ==> s.ledger.accounts[k].id == k,
        forall|id: Seq<char>| #[trigger]
            s.ledger.nfts.contains_key(id) ==> s.ledger.nfts[id].id == id,
        forall|id: Seq<char>| #[trigger]
            s.ledger.nfts.contains_key(id) ==> s.ledger.accounts.contains_key(
                s.ledger.nfts[id].owner,
            ),
{
    reveal(ChainView::wf);
}

/// An account's list holds, once each, exactly the ids of the assets whose
/// owner it is.
pub proof fn accounts_list_what_they_own(s: ChainView, k: Seq<char>)
    requires
        s.wf(),
        s.ledger.accounts.contains_key(k),
    ensures
        s.ledger.accounts[k].nfts.no_duplicates(),
        s.ledger.accounts[k].nfts.to_set() == Set::new(
            |id: Seq<char>| s.ledger.nfts.contains_key(id) && s.ledger.nfts[id].owner == k,
        ),
{
    reveal(ChainView::wf);
    let listed = s.ledger.accounts[k].nfts.to_set();
    let owned = Set::new(
        |id: Seq<char>| s.ledger.nfts.contains_key(id) && s.ledger.nfts[id].owner == k,
    );
    assert forall|id: Seq<char>| listed.contains(id) <==> owned.contains(id) by {
        assert(s.ledger.lists(k, id) <==> s.ledger.owned_by(k, id));
    }
    assert(listed =~= owned);
}

/// Where every id names an asset, the named assets are as many as the ids
/// and stand in their order.
pub proof fn lemma_assets_named_all(l: LedgerView, ids: Seq<Seq<char>>)
    requires
        forall|i: int| 0 <= i < ids.len() ==> l.nfts.contains_key(#[trigger] ids[i]),
    ensures
        l.assets_named(ids).len() == ids.len(),
        forall|i: int| 0 <= i < ids.len() ==> #[trigger] l.assets_named(ids)[i] == l.nfts[ids[i]],
    decreases ids.len(),
{
    if ids.len() > 0 {
        let rest = ids.drop_last();
        assert forall|i: int| 0 <= i < rest.len() implies l.nfts.contains_key(
            #[trigger] rest[i],
        ) by {
            assert(rest[i] == ids[i]);
        }
        lemma_assets_named_all(l, rest);
        assert(l.nfts.contains_key(ids[ids.len() - 1]));
    }
}

/// Listing an account's assets gives one asset for each id of its list, in
/// the list's order, each with the account as its owner.
pub proof fn listed_assets_are_owned(s: ChainView, k: Seq<char>)
    requires
        s.wf(),
        s.ledger.accounts.contains_key(k),
    ensures
        s.ledger.assets_named(s.ledger.accounts[k].nfts).len() == s.ledger.accounts[k].nfts.len(),
        forall|i: int|
            0 <= i < s.ledger.accounts[k].nfts.len() ==> {
                &&& (#[trigger] s.ledger.assets_named(s.ledger.accounts[k].nfts)[i]).id
                    == s.ledger.accounts[k].nfts[i]
                &&& s.ledger.assets_named(s.ledger.accounts[k].nfts)[i].owner == k
            },
{
    reveal(ChainView::wf);
    let ids = s.ledger.accounts[k].nfts;
    assert forall|i: int| 0 <= i < ids.len() implies s.ledger.nfts.contains_key(
        #[trigger] ids[i],
    ) && s.ledger.nfts[ids[i]].owner == k && s.ledger.nfts[ids[i]].id == ids[i] by {
        assert(ids.contains(ids[i]));
        assert(s.ledger.lists(k, ids[i]) <==> s.ledger.owned_by(k, ids[i]));
    }
    lemma_assets_named_all(s.ledger, ids);
}

/// No asset carries the id that the next minting will give.
pub proof fn next_asset_id_is_new(s: ChainView)
    requires
        s.wf(),
    ensures
        !s.ledger.nfts.contains_key(nft_id_text(s.blocks.len())),
{
    reveal(ChainView::wf);
    lemma_next_id_fresh(s);
}

/// Sealing a transaction removes nothing: the blocks so far stay as they
/// are, and every account and every asset stays filed.
pub proof fn nothing_is_removed(s: ChainView, tx: TransactionView, now: i64)
    ensures
        s.append(tx, now).blocks.len() == s.blocks.len() + 1,
        s.append(tx, now).blocks.take(s.blocks.len() as int) == s.blocks,
        s.append(tx, now).difficulty == s.difficulty,
        forall|k: Seq<char>|
            s.ledger.accounts.contains_key(k) ==> #[trigger] s.append(
                tx,
                now,
            ).ledger.accounts.contains_key(k),
        forall|id: Seq<char>|
            s.ledger.nfts.contains_key(id) ==> #[trigger] s.append(tx, now).ledger.nfts.contains_key(
                id,
            ),
{
    assert(s.append(tx, now).blocks.take(s.blocks.len() as int) =~= s.blocks);
}

} // verus!
