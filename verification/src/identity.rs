//! Which accounts lie behind the targets, and which of them need access to the source image.

use crate::assoc::{keys_of, lemma_map_of_entry, map_of, AssocMap};
use crate::error::{AmiError, AmiErrorView};
use crate::image::AccountId;
use crate::target::{RegionRole, RegionRoleView};
use vstd::prelude::*;

verus! {

/// A reply of an outside service: what it returned, or the description of its failure.
pub open spec fn reply_view<T: DeepView, E: DeepView>(reply: Result<T, E>) -> Result<T::V, E::V> {
    match reply {
        Ok(value) => Ok(value.deep_view()),
        Err(source) => Err(source.deep_view()),
    }
}

/// A reply about each of some targets, in the order in which they arrived.
pub open spec fn replies_view<T: DeepView, E: DeepView>(
    replies: Seq<(RegionRole, Result<T, E>)>,
) -> Seq<(RegionRoleView, Result<T::V, E::V>)> {
    replies.map_values(|r: (RegionRole, Result<T, E>)| (r.0@, reply_view(r.1)))
}

/// The account ID in a response to GetCallerIdentity.
pub open spec fn account_in(
    region: Seq<char>,
    response: Result<Option<Seq<char>>, Seq<char>>,
) -> Result<Seq<char>, AmiErrorView> {
    match response {
        Err(source) => Err(AmiErrorView::GetCallerIdentity { region, source }),
        Ok(None) => Err(
            AmiErrorView::MissingInResponse {
                request_type: "GetCallerIdentity"@,
                missing: "account"@,
            },
        ),
        Ok(Some(account_id)) => Ok(account_id),
    }
}

/// Resolves the account ID from the response to GetCallerIdentity in the given region, which is
/// used only for error messages.
pub fn get_account_id(region: &str, response: Result<Option<String>, String>) -> (account: Result<
    AccountId,
    AmiError,
>)
    ensures
        match account {
            Ok(a) => account_in(region@, reply_view(response)) == Ok::<Seq<char>, AmiErrorView>(
                a@,
            ),
            Err(e) => account_in(region@, reply_view(response)) == Err::<Seq<char>, AmiErrorView>(
                e@,
            ),
        },
{
    match response {
        Err(source) => Err(AmiError::GetCallerIdentity { region: region.to_owned(), source }),
        Ok(None) => Err(
            AmiError::MissingInResponse {
                request_type: "GetCallerIdentity".to_owned(),
                missing: "account".to_owned(),
            },
        ),
        Ok(Some(account_id)) => Ok(account_id),
    }
}

/// The account ID of each target.
pub type AccountIds = AssocMap<RegionRole, AccountId>;

/// Account IDs, each by its characters.
pub open spec fn account_ids_view(accounts: Map<RegionRoleView, AccountId>) -> Map<
    RegionRoleView,
    Seq<char>,
> {
    accounts.map_values(|a: AccountId| a@)
}

/// The account IDs that a list of responses gives: of the first response that gives none, the
/// error, else the map of each target to its account ID.
pub open spec fn account_ids_in(
    responses: Seq<(RegionRoleView, Result<Option<Seq<char>>, Seq<char>>)>,
) -> Result<Map<RegionRoleView, Seq<char>>, AmiErrorView>
    decreases responses.len(),
{
    if responses.len() == 0 {
        Ok(Map::empty())
    } else {
        let (target, response) = responses.last();
        match (account_ids_in(responses.drop_last()), account_in(target.region, response)) {
            (Err(e), _) => Err(e),
            (Ok(_), Err(e)) => Err(e),
            (Ok(accounts), Ok(account_id)) => Ok(accounts.insert(target, account_id)),
        }
    }
}

/// A list fails as soon as a part of it fails.
pub proof fn lemma_first_error_stays(
    responses: Seq<(RegionRoleView, Result<Option<Seq<char>>, Seq<char>>)>,
    n: int,
)
    requires
        0 <= n <= responses.len(),
        account_ids_in(responses.take(n)) is Err,
    ensures
        account_ids_in(responses) == account_ids_in(responses.take(n)),
    decreases responses.len() - n,
{
    if n < responses.len() {
        assert(responses.take(n + 1).drop_last() =~= responses.take(n));
        lemma_first_error_stays(responses, n + 1);
    } else {
        assert(responses.take(n) =~= responses);
    }
}

/// Resolves the account ID of each target from the responses to GetCallerIdentity, in the order
/// in which they arrived.
pub fn get_account_ids(
    responses: Vec<(RegionRole, Result<Option<String>, String>)>,
) -> (accounts: Result<AccountIds, AmiError>)
    ensures
        match accounts {
            Ok(a) => account_ids_in(replies_view(responses@)) == Ok::<
                Map<RegionRoleView, Seq<char>>,
                AmiErrorView,
            >(account_ids_view(a@)),
            Err(e) => account_ids_in(replies_view(responses@)) == Err::<
                Map<RegionRoleView, Seq<char>>,
                AmiErrorView,
            >(e@),
        },
{
    let ghost all = replies_view(responses@);
    let mut accounts: AccountIds = AssocMap::new();
    assert(account_ids_view(accounts@) =~= Map::<RegionRoleView, Seq<char>>::empty());
    for entry in it: responses.into_iter()
        invariant
            it.seq() == responses@,
            all == replies_view(responses@),
            account_ids_in(all.take(it.index() as int)) == Ok::<
                Map<RegionRoleView, Seq<char>>,
                AmiErrorView,
            >(account_ids_view(accounts@)),
    {
        let ghost i = it.index() as int;
        let ghost before = account_ids_view(accounts@);
        proof {
            assert(all.take(i + 1).drop_last() =~= all.take(i));
            assert(all[i] == (entry.0@, reply_view(entry.1)));
        }
        match get_account_id(entry.0.region.as_str(), entry.1) {
            Ok(account_id) => {
                accounts.insert(entry.0, account_id);
                assert(account_ids_view(accounts@) =~= before.insert(entry.0@, account_id@));
            },
            Err(e) => {
                proof {
                    lemma_first_error_stays(all, i + 1);
                }
                return Err(e);
            },
        }
    }
    assert(all.take(all.len() as int) =~= all);
    Ok(accounts)
}

/// The accounts that need to be granted access: those of the targets, but for the account that
/// owns the source image.
pub open spec fn grants_of(
    accounts: Map<RegionRoleView, Seq<char>>,
    base_account_id: Seq<char>,
) -> Set<Seq<char>> {
    accounts.values().remove(base_account_id)
}

/// Whether a list of accounts holds an account.
fn lists(accounts: &Vec<AccountId>, account_id: &String) -> (found: bool)
    ensures
        found == accounts.deep_view().contains(account_id@),
{
    let mut i: usize = 0;
    while i < accounts.len()
        invariant
            i <= accounts@.len(),
            forall|j: int| 0 <= j < i ==> accounts.deep_view()[j] != account_id@,
        decreases accounts@.len() - i,
    {
        if accounts[i] == *account_id {
            assert(accounts.deep_view()[i as int] == account_id@);
            return true;
        }
        i += 1;
    }
    false
}

/// The accounts that need to be granted access to the source image and its snapshots, each once.
pub fn grant_account_ids(accounts: &AccountIds, base_account_id: &String) -> (grants: Vec<
    AccountId,
>)
    ensures
        grants.deep_view().no_duplicates(),
        grants.deep_view().to_set() == grants_of(account_ids_view(accounts@), base_account_id@),
{
    let entries = accounts.entries();
    let ghost map = account_ids_view(accounts@);
    let mut grants: Vec<AccountId> = Vec::new();
    let mut i: usize = 0;
    while i < entries.len()
        invariant
            i <= entries@.len(),
            keys_of(entries@).no_duplicates(),
            map_of(entries@) == accounts@,
            map == account_ids_view(accounts@),
            grants.deep_view().no_duplicates(),
            forall|a: Seq<char>| #[trigger]
                grants.deep_view().contains(a) ==> grants_of(map, base_account_id@).contains(a),
            forall|j: int|
                0 <= j < i ==> (#[trigger] entries@[j]).1@ == base_account_id@
                    || grants.deep_view().contains(entries@[j].1@),
        decreases entries@.len() - i,
    {
        let account_id = &entries[i].1;
        proof {
            lemma_map_of_entry(entries@, i as int);
            assert(map.contains_key(entries@[i as int].0@));
            assert(map.values().contains(account_id@));
        }
        if *account_id != *base_account_id && !lists(&grants, account_id) {
            let ghost before = grants.deep_view();
            grants.push(account_id.clone());
            proof {
                let after = grants.deep_view();
                assert(after =~= before.push(account_id@));
                assert(after[before.len() as int] == account_id@);
                assert forall|a: Seq<char>| before.contains(a) implies after.contains(a) by {
                    let j = before.index_of(a);
                    assert(after[j] == a);
                }
                assert forall|a: Seq<char>| #[trigger] after.contains(a) implies grants_of(
                    map,
                    base_account_id@,
                ).contains(a) by {
                    let j = after.index_of(a);
                    if j < before.len() {
                        assert(before[j] == a);
                        assert(before.contains(a));
                    }
                }
            }
        }
        i += 1;
    }
    proof {
        assert forall|a: Seq<char>| grants_of(map, base_account_id@).contains(a) implies
            grants.deep_view().to_set().contains(a) by {
            let t = choose|t: RegionRoleView| #[trigger] map.contains_key(t) && map[t] == a;
            let j = keys_of(entries@).index_of(t);
            assert(keys_of(entries@)[j] == t);
            lemma_map_of_entry(entries@, j);
            assert(entries@[j].1@ == a);
        }
        assert(grants.deep_view().to_set() =~= grants_of(map, base_account_id@));
    }
    grants
}

} // verus!
