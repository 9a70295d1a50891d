//! The ledger state as a mathematical value, and what each transaction does
//! to it.

use crate::model::{AccountView, NftView, TransactionView};
use vstd::prelude::*;

verus! {

/// `ids` without every occurrence of `id`, the rest in their order.
pub open spec fn without(ids: Seq<Seq<char>>, id: Seq<char>) -> Seq<Seq<char>> {
    ids.filter(|x: Seq<char>| x != id)
}

/// The account and asset tables.
pub struct LedgerView {
    pub accounts: Map<Seq<char>, AccountView>,
    pub nfts: Map<Seq<char>, NftView>,
}

impl LedgerView {
    /// No account, no asset.
    pub open spec fn empty() -> LedgerView {
        LedgerView { accounts: Map::empty(), nfts: Map::empty() }
    }

    /// Account `k` lists asset `id`.
    pub open spec fn lists(self, k: Seq<char>, id: Seq<char>) -> bool {
        self.accounts[k].nfts.contains(id)
    }

    /// Asset `id` exists and names `k` as its owner.
    pub open spec fn owned_by(self, k: Seq<char>, id: Seq<char>) -> bool {
        self.nfts.contains_key(id) && self.nfts[id].owner == k
    }

    /// The tables agree with each other: every entry is filed under its own
    /// id, every asset's owner is an account, and each account lists, once
    /// each, exactly the assets that name it as their owner.
    pub open spec fn consistent(self) -> bool {
        &&& forall|k: Seq<char>| #[trigger]
            self.accounts.contains_key(k) ==> self.accounts[k].id == k
        &&& forall|id: Seq<char>| #[trigger] self.nfts.contains_key(id) ==> self.nfts[id].id == id
        &&& forall|id: Seq<char>| #[trigger]
            self.nfts.contains_key(id) ==> self.accounts.contains_key(self.nfts[id].owner)
        &&& forall|k: Seq<char>| #[trigger]
            self.accounts.contains_key(k) ==> self.accounts[k].nfts.no_duplicates()
        &&& forall|k: Seq<char>, id: Seq<char>|
            self.accounts.contains_key(k) ==> (#[trigger] self.lists(k, id) <==> self.owned_by(
                k,
                id,
            ))
    }

    /// Files account `a` under its id.
    pub open spec fn create_account(self, a: AccountView) -> LedgerView {
        LedgerView { accounts: self.accounts.insert(a.id, a), nfts: self.nfts }
    }

    /// Files asset `n` under its id and appends the id to its owner's list,
    /// if the owner is an account.
    pub open spec fn mint(self, n: NftView) -> LedgerView {
        LedgerView {
            accounts: if self.accounts.contains_key(n.owner) {
                let owner = self.accounts[n.owner];
                self.accounts.insert(n.owner, AccountView { nfts: owner.nfts.push(n.id), ..owner })
            } else {
                self.accounts
            },
            nfts: self.nfts.insert(n.id, n),
        }
    }

    /// Makes `to` the owner of asset `nft_id`, takes the id off the list of
    /// `from` and appends it to the list of `to`. A table entry that does not
    /// exist is passed over.
    pub open spec fn transfer(self, nft_id: Seq<char>, from: Seq<char>, to: Seq<char>) -> LedgerView {
        let nfts = if self.nfts.contains_key(nft_id) {
            self.nfts.insert(nft_id, NftView { owner: to, ..self.nfts[nft_id] })
        } else {
            self.nfts
        };
        let taken = if self.accounts.contains_key(from) {
            let sender = self.accounts[from];
            self.accounts.insert(
                from,
                AccountView { nfts: without(sender.nfts, nft_id), ..sender },
            )
        } else {
            self.accounts
        };
        let given = if taken.contains_key(to) {
            let receiver = taken[to];
            taken.insert(to, AccountView { nfts: receiver.nfts.push(nft_id), ..receiver })
        } else {
            taken
        };
        LedgerView { accounts: given, nfts }
    }

    /// The assets that `ids` name, in the order of `ids`; an id that names
    /// no asset is passed over.
    pub open spec fn assets_named(self, ids: Seq<Seq<char>>) -> Seq<NftView>
        decreases ids.len(),
    {
        if ids.len() == 0 {
            Seq::empty()
        } else if self.nfts.contains_key(ids.last()) {
            self.assets_named(ids.drop_last()).push(self.nfts[ids.last()])
        } else {
            self.assets_named(ids.drop_last())
        }
    }

    /// The ledger after one transaction.
    pub open spec fn apply(self, tx: TransactionView) -> LedgerView {
        match tx {
            TransactionView::CreateAccount(a) => self.create_account(a),
            TransactionView::MintNFT(n) => self.mint(n),
            TransactionView::Transfer { nft_id, from, to } => self.transfer(nft_id, from, to),
        }
    }

    /// The ledger after the transactions `txs`, applied in order.
    pub open spec fn apply_all(self, txs: Seq<TransactionView>) -> LedgerView
        decreases txs.len(),
    {
        if txs.len() == 0 {
            self
        } else {
            self.apply_all(txs.drop_last()).apply(txs.last())
        }
    }
}

/// `without` keeps exactly the other ids, and keeps a list free of
/// duplicates so.
pub proof fn lemma_without(ids: Seq<Seq<char>>, id: Seq<char>)
    ensures
        forall|x: Seq<char>| #[trigger]
            without(ids, id).contains(x) <==> ids.contains(x) && x != id,
        ids.no_duplicates() ==> without(ids, id).no_duplicates(),
    decreases ids.len(),
{
    let pred = |x: Seq<char>| x != id;
    reveal(Seq::filter);
    if ids.len() == 0 {
        assert(without(ids, id) =~= Seq::<Seq<char>>::empty());
    } else {
        let rest = ids.drop_last();
        let last = ids.last();
        lemma_without(rest, id);
        let kept = without(rest, id);
        assert(forall|x: Seq<char>| #[trigger]
            ids.contains(x) <==> rest.contains(x) || x == last) by {
            assert forall|x: Seq<char>| #[trigger]
                ids.contains(x) implies rest.contains(x) || x == last by {
                let i = choose|i: int| 0 <= i < ids.len() && ids[i] == x;
                if i < ids.len() - 1 {
                    assert(rest[i] == x);
                }
            }
            assert forall|x: Seq<char>| rest.contains(x) || x == last implies #[trigger]
                ids.contains(x) by {
                if rest.contains(x) {
                    let i = choose|i: int| 0 <= i < rest.len() && rest[i] == x;
                    assert(ids[i] == x);
                } else {
                    assert(ids[ids.len() - 1] == x);
                }
            }
        }
        if last != id {
            assert(without(ids, id) == kept.push(last));
            assert forall|x: Seq<char>| #[trigger]
                kept.push(last).contains(x) <==> kept.contains(x) || x == last by {
                if kept.push(last).contains(x) {
                    let i = choose|i: int| 0 <= i < kept.push(last).len() && kept.push(last)[i] == x;
                    if i < kept.len() {
                        assert(kept[i] == x);
                    }
                }
                if kept.contains(x) {
                    let i = choose|i: int| 0 <= i < kept.len() && kept[i] == x;
                    assert(kept.push(last)[i] == x);
                }
                if x == last {
                    assert(kept.push(last)[kept.len() as int] == x);
                }
            }
            if ids.no_duplicates() {
                assert(rest.no_duplicates());
                assert(!rest.contains(last)) by {
                    if rest.contains(last) {
                        let i = choose|i: int| 0 <= i < rest.len() && rest[i] == last;
                        assert(ids[i] == ids[ids.len() - 1]);
                    }
                }
                assert(!kept.contains(last));
                assert(kept.push(last).no_duplicates()) by {
                    assert forall|i: int, j: int|
                        0 <= i < kept.push(last).len() && 0 <= j < kept.push(last).len() && i
                            != j implies kept.push(last)[i] != kept.push(last)[j] by {
                        if i < kept.len() && j < kept.len() {
                        } else if i < kept.len() {
                            assert(kept.contains(kept[i]));
                        } else {
                            assert(kept.contains(kept[j]));
                        }
                    }
                }
            }
        } else {
            assert(without(ids, id) == kept);
            if ids.no_duplicates() {
                assert(rest.no_duplicates());
            }
        }
    }
}

/// `without` goes through a list item by item.
pub proof fn lemma_without_push(ids: Seq<Seq<char>>, x: Seq<char>, id: Seq<char>)
    ensures
        without(ids.push(x), id) == if x != id {
            without(ids, id).push(x)
        } else {
            without(ids, id)
        },
{
    reveal(Seq::filter);
    assert(ids.push(x).drop_last() =~= ids);
}

/// What a list holds after one more id.
pub proof fn lemma_push_contains(ids: Seq<Seq<char>>, id: Seq<char>)
    ensures
        forall|x: Seq<char>| #[trigger] ids.push(id).contains(x) <==> ids.contains(x) || x == id,
{
    let more = ids.push(id);
    assert forall|x: Seq<char>| #[trigger] more.contains(x) <==> ids.contains(x) || x == id by {
        if more.contains(x) {
            let i = choose|i: int| 0 <= i < more.len() && more[i] == x;
            if i < ids.len() {
                assert(ids[i] == x);
            }
        }
        if ids.contains(x) {
            let i = choose|i: int| 0 <= i < ids.len() && ids[i] == x;
            assert(more[i] == x);
        }
        if x == id {
            assert(more[ids.len() as int] == x);
        }
    }
}

/// A list without duplicates stays so when an id that it lacks is appended.
pub proof fn lemma_push_no_duplicates(ids: Seq<Seq<char>>, id: Seq<char>)
    requires
        ids.no_duplicates(),
        !ids.contains(id),
    ensures
        ids.push(id).no_duplicates(),
{
    let more = ids.push(id);
    assert forall|i: int, j: int| 0 <= i < more.len() && 0 <= j < more.len() && i != j implies more[i]
        != more[j] by {
        if i < ids.len() && j < ids.len() {
        } else if i < ids.len() {
            assert(ids.contains(ids[i]));
        } else {
            assert(ids.contains(ids[j]));
        }
    }
}

/// A new account with an empty list keeps the tables consistent.
pub proof fn lemma_create_account_consistent(l: LedgerView, a: AccountView)
    requires
        l.consistent(),
        !l.accounts.contains_key(a.id),
        a.nfts.len() == 0,
    ensures
        l.create_account(a).consistent(),
{
    let post = l.create_account(a);
    assert forall|k: Seq<char>, id: Seq<char>| post.accounts.contains_key(k) implies (
    #[trigger] post.lists(k, id) <==> post.owned_by(k, id)) by {
        if k == a.id {
            if post.owned_by(k, id) {
                assert(l.accounts.contains_key(l.nfts[id].owner));
            }
        } else {
            assert(l.lists(k, id) <==> l.owned_by(k, id));
        }
    }
}

/// A new asset for an existing account keeps the tables consistent.
pub proof fn lemma_mint_consistent(l: LedgerView, n: NftView)
    requires
        l.consistent(),
        l.accounts.contains_key(n.owner),
        !l.nfts.contains_key(n.id),
    ensures
        l.mint(n).consistent(),
{
    let post = l.mint(n);
    let held = l.accounts[n.owner].nfts;
    lemma_push_contains(held, n.id);
    assert(!held.contains(n.id)) by {
        assert(l.lists(n.owner, n.id) <==> l.owned_by(n.owner, n.id));
    }
    lemma_push_no_duplicates(held, n.id);
    assert forall|id: Seq<char>| #[trigger] post.nfts.contains_key(id) implies post.accounts.contains_key(
        post.nfts[id].owner,
    ) by {
        if id != n.id {
            assert(l.nfts.contains_key(id));
        }
    }
    assert forall|k: Seq<char>| #[trigger] post.accounts.contains_key(k) implies post.accounts[k].nfts.no_duplicates() by {
        if k != n.owner {
            assert(l.accounts.contains_key(k));
        }
    }
    assert forall|k: Seq<char>, id: Seq<char>| post.accounts.contains_key(k) implies (
    #[trigger] post.lists(k, id) <==> post.owned_by(k, id)) by {
        assert(l.lists(k, id) <==> l.owned_by(k, id));
    }
}

/// A transfer by the owner between two accounts keeps the tables
/// consistent.
pub proof fn lemma_transfer_consistent(
    l: LedgerView,
    nft_id: Seq<char>,
    from: Seq<char>,
    to: Seq<char>,
)
    requires
        l.consistent(),
        l.accounts.contains_key(from),
        l.accounts.contains_key(to),
        l.nfts.contains_key(nft_id),
        l.nfts[nft_id].owner == from,
    ensures
        l.transfer(nft_id, from, to).consistent(),
{
    let post = l.transfer(nft_id, from, to);
    let sent = l.accounts[from].nfts;
    let left = without(sent, nft_id);
    lemma_without(sent, nft_id);
    let base = if from == to {
        left
    } else {
        l.accounts[to].nfts
    };
    assert(post.accounts[to].nfts == base.push(nft_id));
    lemma_push_contains(base, nft_id);
    assert(!base.contains(nft_id)) by {
        if from != to {
            assert(l.lists(to, nft_id) <==> l.owned_by(to, nft_id));
        }
    }
    lemma_push_no_duplicates(base, nft_id);
    assert forall|id: Seq<char>| #[trigger] post.nfts.contains_key(id) implies post.accounts.contains_key(
        post.nfts[id].owner,
    ) by {
        if id != nft_id {
            assert(l.nfts.contains_key(id));
        }
    }
    assert forall|k: Seq<char>| #[trigger] post.accounts.contains_key(k) implies post.accounts[k].nfts.no_duplicates() by {
        assert(l.accounts.contains_key(k));
    }
    assert forall|k: Seq<char>, id: Seq<char>| post.accounts.contains_key(k) implies (
    #[trigger] post.lists(k, id) <==> post.owned_by(k, id)) by {
        assert(l.accounts.contains_key(k));
        assert(l.lists(k, id) <==> l.owned_by(k, id));
        assert(l.lists(from, id) <==> l.owned_by(from, id));
    }
}

} // verus!
