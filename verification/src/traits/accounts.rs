//! The balances of an exchange account, one per asset.

use crate::text::str_eq;
use crate::traits::exchange::{Account, AccountView};
use vstd::prelude::*;

verus! {

/// The mapping from asset to account that arises when `entries` are entered
/// one after the other: a later entry replaces an earlier one of the same
/// asset.
pub open spec fn accounts_map(entries: Seq<AccountView>) -> Map<Seq<char>, AccountView>
    decreases entries.len(),
{
    if entries.len() == 0 {
        Map::empty()
    } else {
        accounts_map(entries.drop_last()).insert(entries.last().asset, entries.last())
    }
}

/// Whether no two of `entries` are for the same asset.
pub open spec fn distinct_assets(entries: Seq<AccountView>) -> bool {
    forall|i: int, j: int|
        0 <= i < j < entries.len() ==> (#[trigger] entries[i]).asset != (#[trigger] entries[j]).asset
}

/// The mapping has an account for exactly the assets that occur among the
/// entries.
pub proof fn lemma_assets_of_map(entries: Seq<AccountView>, asset: Seq<char>)
    ensures
        accounts_map(entries).contains_key(asset) <==> exists|i: int|
            0 <= i < entries.len() && (#[trigger] entries[i]).asset == asset,
    decreases entries.len(),
{
    if entries.len() > 0 {
        let earlier = entries.drop_last();
        lemma_assets_of_map(earlier, asset);
        if accounts_map(entries).contains_key(asset) {
            if entries.last().asset == asset {
                assert(entries[entries.len() - 1].asset == asset);
            } else {
                let i = choose|i: int| 0 <= i < earlier.len() && (#[trigger] earlier[i]).asset == asset;
                assert(entries[i].asset == asset);
            }
        }
        if exists|i: int| 0 <= i < entries.len() && (#[trigger] entries[i]).asset == asset {
            let i = choose|i: int| 0 <= i < entries.len() && (#[trigger] entries[i]).asset == asset;
            if i < entries.len() - 1 {
                assert(earlier[i].asset == asset);
            }
        }
    }
}

/// The last entry for an asset wins: the mapping holds, for that asset, the
/// entry behind which no other entry names it.
pub proof fn lemma_last_entry_wins(entries: Seq<AccountView>, i: int)
    requires
        0 <= i < entries.len(),
        forall|j: int| i < j < entries.len() ==> (#[trigger] entries[j]).asset != entries[i].asset,
    ensures
        accounts_map(entries).contains_key(entries[i].asset),
        accounts_map(entries)[entries[i].asset] == entries[i],
    decreases entries.len(),
{
    if i < entries.len() - 1 {
        let earlier = entries.drop_last();
        assert(entries[entries.len() - 1].asset != entries[i].asset);
        assert forall|j: int| i < j < earlier.len() implies (#[trigger] earlier[j]).asset
            != earlier[i].asset by {
            assert(entries[j].asset != entries[i].asset);
        }
        lemma_last_entry_wins(earlier, i);
    }
}

/// Of two entries for one asset, the second is the one that the mapping
/// holds, and it holds nothing else.
pub proof fn lemma_repeated_asset(first: AccountView, second: AccountView)
    requires
        first.asset == second.asset,
    ensures
        accounts_map(seq![first, second]) == Map::<Seq<char>, AccountView>::empty().insert(
            second.asset,
            second,
        ),
        accounts_map(seq![first, second]).dom().len() == 1,
{
    let both = seq![first, second];
    assert(both.drop_last() =~= seq![first]);
    assert(seq![first].drop_last() =~= Seq::<AccountView>::empty());
    assert(accounts_map(seq![first]) == accounts_map(Seq::<AccountView>::empty()).insert(
        first.asset,
        first,
    ));
    let one = Map::<Seq<char>, AccountView>::empty().insert(second.asset, second);
    assert(accounts_map(both) =~= one);
    assert(one.dom() =~= Set::empty().insert(second.asset));
}

/// Every account of the mapping is one of the entries, filed under its own
/// asset.
pub proof fn lemma_map_holds_entries(entries: Seq<AccountView>, asset: Seq<char>)
    requires
        accounts_map(entries).contains_key(asset),
    ensures
        accounts_map(entries)[asset].asset == asset,
        exists|i: int| 0 <= i < entries.len() && #[trigger] entries[i] == accounts_map(entries)[asset],
    decreases entries.len(),
{
    if entries.len() > 0 {
        if entries.last().asset == asset {
            assert(entries[entries.len() - 1] == accounts_map(entries)[asset]);
        } else {
            let earlier = entries.drop_last();
            lemma_map_holds_entries(earlier, asset);
            let i = choose|i: int|
                0 <= i < earlier.len() && #[trigger] earlier[i] == accounts_map(earlier)[asset];
            assert(entries[i] == accounts_map(entries)[asset]);
        }
    }
}

/// Entries for distinct assets give a mapping with as many accounts as
/// there are entries.
pub proof fn lemma_map_len(entries: Seq<AccountView>)
    requires
        distinct_assets(entries),
    ensures
        accounts_map(entries).dom().finite(),
        accounts_map(entries).dom().len() == entries.len(),
    decreases entries.len(),
{
    if entries.len() > 0 {
        let earlier = entries.drop_last();
        assert(distinct_assets(earlier)) by {
            assert forall|i: int, j: int| 0 <= i < j < earlier.len() implies (#[trigger] earlier[i]).asset
                != (#[trigger] earlier[j]).asset by {
                assert(entries[i].asset != entries[j].asset);
            }
        }
        lemma_map_len(earlier);
        lemma_assets_of_map(earlier, entries.last().asset);
        if accounts_map(earlier).contains_key(entries.last().asset) {
            let i = choose|i: int|
                0 <= i < earlier.len() && (#[trigger] earlier[i]).asset == entries.last().asset;
            assert(entries[i].asset != entries[entries.len() - 1].asset);
        }
        assert(accounts_map(entries).dom() =~= accounts_map(earlier).dom().insert(
            entries.last().asset,
        ));
    } else {
        assert(accounts_map(entries).dom() =~= Set::empty());
    }
}

/// Replacing the one entry for an asset enters the new account into the
/// mapping.
pub proof fn lemma_replace_entry(entries: Seq<AccountView>, i: int, account: AccountView)
    requires
        distinct_assets(entries),
        0 <= i < entries.len(),
        entries[i].asset == account.asset,
    ensures
        distinct_assets(entries.update(i, account)),
        accounts_map(entries.update(i, account)) == accounts_map(entries).insert(
            account.asset,
            account,
        ),
    decreases entries.len(),
{
    let replaced = entries.update(i, account);
    assert(distinct_assets(replaced)) by {
        assert forall|a: int, b: int| 0 <= a < b < replaced.len() implies (#[trigger] replaced[a]).asset
            != (#[trigger] replaced[b]).asset by {
            assert(entries[a].asset != entries[b].asset);
        }
    }
    let earlier = entries.drop_last();
    if i == entries.len() - 1 {
        assert(replaced.drop_last() =~= earlier);
        assert(accounts_map(replaced) =~= accounts_map(entries).insert(account.asset, account));
    } else {
        assert(distinct_assets(earlier)) by {
            assert forall|a: int, b: int| 0 <= a < b < earlier.len() implies (#[trigger] earlier[a]).asset
                != (#[trigger] earlier[b]).asset by {
                assert(entries[a].asset != entries[b].asset);
            }
        }
        lemma_replace_entry(earlier, i, account);
        assert(replaced.drop_last() =~= earlier.update(i, account));
        assert(replaced.last() == entries.last());
        assert(entries[i].asset != entries[entries.len() - 1].asset);
        assert(accounts_map(replaced) =~= accounts_map(entries).insert(account.asset, account));
    }
}

/// The accounts of a member, at most one for each asset.
#[derive(Debug)]
pub struct Accounts {
    entries: Vec<Account>,
}

impl View for Accounts {
    type V = Map<Seq<char>, AccountView>;

    closed spec fn view(&self) -> Map<Seq<char>, AccountView> {
        accounts_map(self.entries.deep_view())
    }
}

impl Accounts {
    #[verifier::type_invariant]
    closed spec fn distinct(self) -> bool {
        distinct_assets(self.entries.deep_view())
    }

    /// The accounts one by one, as contracts see them.
    pub closed spec fn listed(self) -> Seq<AccountView> {
        self.entries.deep_view()
    }

    /// No accounts.
    pub fn new() -> (accounts: Accounts)
        ensures
            accounts@ == Map::<Seq<char>, AccountView>::empty(),
    {
        let entries: Vec<Account> = Vec::new();
        assert(entries.deep_view() =~= Seq::empty());
        Accounts { entries }
    }

    /// Where the account for `asset` stands, if there is one.
    fn position(&self, asset: &str) -> (at: Option<usize>)
        ensures
            match at {
                Some(i) => i < self.entries.len() && self.entries[i as int].asset@ == asset@,
                None => forall|i: int|
                    0 <= i < self.entries.len() ==> (#[trigger] self.entries[i]).asset@ != asset@,
            },
    {
        let mut i: usize = 0;
        while i < self.entries.len()
            invariant
                i <= self.entries.len(),
                forall|k: int| 0 <= k < i ==> (#[trigger] self.entries[k]).asset@ != asset@,
            decreases self.entries.len() - i,
        {
            if str_eq(self.entries[i].asset.as_str(), asset) {
                return Some(i);
            }
            i = i + 1;
        }
        None
    }

    /// These accounts with `account` entered; it replaces the account that
    /// was there for its asset, if there was one.
    pub fn insert(self, account: Account) -> (entered: Accounts)
        ensures
            entered@ == self@.insert(account@.asset, account@),
    {
        proof {
            use_type_invariant(&self);
        }
        let ghost before = self.entries.deep_view();
        let at = self.position(account.asset.as_str());
        let mut entries = self.entries;
        match at {
            Some(i) => {
                proof {
                    lemma_replace_entry(before, i as int, account@);
                }
                entries.set(i, account);
                assert(entries.deep_view() =~= before.update(i as int, account@));
            },
            None => {
                entries.push(account);
                proof {
                    let after = entries.deep_view();
                    assert(after =~= before.push(account@));
                    assert(after.drop_last() =~= before);
                    assert forall|a: int, b: int| 0 <= a < b < after.len() implies (#[trigger] after[a]).asset
                        != (#[trigger] after[b]).asset by {
                        if b < before.len() {
                            assert(before[a].asset != before[b].asset);
                        } else {
                            assert(self.entries[a].asset@ != account@.asset);
                        }
                    }
                }
            },
        }
        Accounts { entries }
    }

    /// The account for `asset`, if there is one.
    pub fn get(&self, asset: &str) -> (found: Option<&Account>)
        ensures
            match found {
                Some(account) => self@.contains_key(asset@) && self@[asset@] == account@,
                None => !self@.contains_key(asset@),
            },
    {
        proof {
            use_type_invariant(self);
            lemma_assets_of_map(self.entries.deep_view(), asset@);
        }
        match self.position(asset) {
            Some(i) => {
                proof {
                    let listed = self.entries.deep_view();
                    assert(listed[i as int].asset == asset@);
                    lemma_last_entry_wins(listed, i as int);
                }
                Some(&self.entries[i])
            },
            None => {
                proof {
                    let listed = self.entries.deep_view();
                    assert forall|i: int| 0 <= i < listed.len() implies (#[trigger] listed[i]).asset
                        != asset@ by {
                        assert(self.entries[i].asset@ != asset@);
                    }
                }
                None
            },
        }
    }

    /// How many assets have an account.
    pub fn len(&self) -> (n: usize)
        ensures
            self@.dom().finite(),
            n == self@.dom().len(),
    {
        proof {
            use_type_invariant(self);
            lemma_map_len(self.entries.deep_view());
        }
        self.entries.len()
    }

    /// The accounts one by one, each asset once.
    pub fn entries(&self) -> (entries: &Vec<Account>)
        ensures
            entries.deep_view() == self.listed(),
            distinct_assets(self.listed()),
            accounts_map(self.listed()) == self@,
    {
        proof {
            use_type_invariant(self);
        }
        &self.entries
    }
}

} // verus!
