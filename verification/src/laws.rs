//! What holds of every publication, whatever it is answered.

use crate::assoc::{collected, firsts, lemma_collected};
use crate::error::AmiErrorView;
use crate::identity::{account_ids_in, account_in, grants_of, lemma_first_error_stays};
use crate::image::{
    each_listed_once, has_image, listed, listed_regions, placed, ImageView, ListingView,
};
use crate::model::{
    after_copies, copied_image, gave_id, lemma_account_ids_domain, report_of, with_copies, AmisView,
};
use crate::stage::{CopyReplyView, RolloutView, SearchReplyView, StageView};
use crate::target::{
    chosen_regions, other_than, pairs_in, pairs_of, planned, roles_of, targets_of, AwsConfigView,
    PlanView, RegionRoleView,
};
use vstd::prelude::*;

verus! {

// ---------------------------------------------------------------------------------------------
// Where to publish.
// ---------------------------------------------------------------------------------------------

/// The pairs of some regions are the regions with their roles.
proof fn lemma_pairs(config: AwsConfigView, regions: Seq<Seq<char>>, pair: RegionRoleView)
    ensures
        pairs_of(config, regions).contains(pair) <==> (regions.contains(pair.region) && roles_of(
            config,
            pair.region,
        ).contains(pair.role)),
    decreases regions.len(),
{
    if regions.len() > 0 {
        let init = regions.drop_last();
        let last = regions.last();
        let before = pairs_of(config, init);
        let here = pairs_in(config, last);
        lemma_pairs(config, init, pair);
        assert(here.contains(pair) <==> (pair.region == last && roles_of(config, last).contains(
            pair.role,
        ))) by {
            if here.contains(pair) {
                let i = here.index_of(pair);
                assert(roles_of(config, last)[i] == pair.role);
            }
            if pair.region == last && roles_of(config, last).contains(pair.role) {
                let i = roles_of(config, last).index_of(pair.role);
                assert(here[i] == pair);
            }
        }
        assert((before + here).contains(pair) <==> (before.contains(pair) || here.contains(pair)))
            by {
            if before.contains(pair) {
                assert((before + here)[before.index_of(pair)] == pair);
            }
            if here.contains(pair) {
                assert((before + here)[before.len() + here.index_of(pair)] == pair);
            }
            if (before + here).contains(pair) {
                let i = (before + here).index_of(pair);
                if i < before.len() {
                    assert(before[i] == pair);
                } else {
                    assert(here[i - before.len()] == pair);
                }
            }
        }
        assert(regions.contains(pair.region) <==> (init.contains(pair.region) || pair.region
            == last)) by {
            if init.contains(pair.region) {
                assert(regions[init.index_of(pair.region)] == pair.region);
            }
            if pair.region == last {
                assert(regions[regions.len() - 1] == pair.region);
            }
            if regions.contains(pair.region) {
                let i = regions.index_of(pair.region);
                if i < init.len() {
                    assert(init[i] == pair.region);
                }
            }
        }
    }
}

/// The targets of a plan are every chosen region with every role configured for it, but for the
/// source. A region without an entry in the configuration counts once, without a role.
pub proof fn law_plan_reaches_every_pair(
    overrides: Seq<Seq<char>>,
    config: AwsConfigView,
    plan: PlanView,
    pair: RegionRoleView,
)
    requires
        planned(overrides, config) == Ok::<PlanView, AmiErrorView>(plan),
    ensures
        plan.targets.contains(pair) <==> (pair != plan.source && chosen_regions(
            overrides,
            config,
        ).contains(pair.region) && roles_of(config, pair.region).contains(pair.role)),
        !plan.targets.contains(plan.source),
{
    let regions = chosen_regions(overrides, config);
    let pairs = pairs_of(config, regions);
    let keep = other_than(plan.source);
    assert(plan.targets == targets_of(config, regions, plan.source));
    lemma_pairs(config, regions, pair);
    lemma_filter_sound(pairs, keep, pair);
    lemma_filter_sound(pairs, keep, plan.source);
}

/// Where no region is chosen twice and no region has a role twice, no target is named twice.
pub proof fn law_plan_names_each_target_once(
    overrides: Seq<Seq<char>>,
    config: AwsConfigView,
    plan: PlanView,
)
    requires
        planned(overrides, config) == Ok::<PlanView, AmiErrorView>(plan),
        chosen_regions(overrides, config).no_duplicates(),
        forall|region: Seq<char>| #[trigger] roles_of(config, region).no_duplicates(),
    ensures
        plan.targets.no_duplicates(),
{
    let regions = chosen_regions(overrides, config);
    lemma_pairs_distinct(config, regions);
    lemma_filter_distinct(pairs_of(config, regions), other_than(plan.source));
}

/// Distinct regions with distinct roles make distinct pairs.
proof fn lemma_pairs_distinct(config: AwsConfigView, regions: Seq<Seq<char>>)
    requires
        regions.no_duplicates(),
        forall|region: Seq<char>| #[trigger] roles_of(config, region).no_duplicates(),
    ensures
        pairs_of(config, regions).no_duplicates(),
    decreases regions.len(),
{
    if regions.len() > 0 {
        let init = regions.drop_last();
        let last = regions.last();
        let before = pairs_of(config, init);
        let here = pairs_in(config, last);
        lemma_pairs_distinct(config, init);
        assert(roles_of(config, last).no_duplicates());
        assert forall|i: int, j: int| 0 <= i < before.len() && 0 <= j < here.len() implies before[i]
            != here[j] by {
            if before[i] == here[j] {
                lemma_pairs(config, init, before[i]);
                assert(before.contains(before[i]));
                let k = init.index_of(last);
                assert(regions[k] == regions[regions.len() - 1]);
            }
        }
    }
}

/// A filter keeps distinct elements distinct.
proof fn lemma_filter_distinct<A>(s: Seq<A>, keep: spec_fn(A) -> bool)
    requires
        s.no_duplicates(),
    ensures
        s.filter(keep).no_duplicates(),
    decreases s.len(),
{
    reveal(Seq::filter);
    if s.len() > 0 {
        let init = s.drop_last();
        lemma_filter_distinct(init, keep);
        lemma_filter_sound(init, keep, s.last());
        let kept = init.filter(keep);
        assert(!init.contains(s.last()));
        assert forall|i: int| 0 <= i < kept.len() implies kept[i] != s.last() by {
            assert(kept.contains(kept[i]));
        }
    }
}

/// A filter keeps of two lists what it keeps of each.
pub proof fn lemma_filter_concat<A>(s: Seq<A>, t: Seq<A>, keep: spec_fn(A) -> bool)
    ensures
        (s + t).filter(keep) == s.filter(keep) + t.filter(keep),
    decreases t.len(),
{
    reveal(Seq::filter);
    if t.len() == 0 {
        assert(s + t =~= s);
        assert(t.filter(keep) =~= Seq::empty());
        assert(s.filter(keep) + t.filter(keep) =~= s.filter(keep));
    } else {
        assert((s + t).drop_last() =~= s + t.drop_last());
        assert((s + t).last() == t.last());
        lemma_filter_concat(s, t.drop_last(), keep);
        assert((s + t).filter(keep) =~= s.filter(keep) + t.filter(keep));
    }
}

/// What a filter keeps.
proof fn lemma_filter_sound<A>(s: Seq<A>, keep: spec_fn(A) -> bool, a: A)
    ensures
        s.filter(keep).contains(a) <==> (s.contains(a) && keep(a)),
    decreases s.len(),
{
    reveal(Seq::filter);
    if s.len() > 0 {
        let init = s.drop_last();
        lemma_filter_sound(init, keep, a);
        assert(s.contains(a) <==> (init.contains(a) || a == s.last())) by {
            if init.contains(a) {
                assert(s[init.index_of(a)] == a);
            }
            if a == s.last() {
                assert(s[s.len() - 1] == a);
            }
            if s.contains(a) {
                let i = s.index_of(a);
                if i < init.len() {
                    assert(init[i] == a);
                }
            }
        }
        if keep(s.last()) {
            let kept = init.filter(keep);
            assert(s.filter(keep) =~= kept.push(s.last()));
            assert(kept.push(s.last()).contains(a) <==> (kept.contains(a) || a == s.last())) by {
                if kept.contains(a) {
                    assert(kept.push(s.last())[kept.index_of(a)] == a);
                }
                if a == s.last() {
                    assert(kept.push(s.last())[kept.len() as int] == a);
                }
                if kept.push(s.last()).contains(a) {
                    let i = kept.push(s.last()).index_of(a);
                    if i < kept.len() {
                        assert(kept[i] == a);
                    }
                }
            }
        }
    }
}

// ---------------------------------------------------------------------------------------------
// Images by region and account.
// ---------------------------------------------------------------------------------------------

/// An image that is recorded is found again, and nothing else is found that was not there before.
pub proof fn law_placed_image_is_found(
    amis: AmisView,
    region: Seq<char>,
    account_id: Seq<char>,
    image: ImageView,
    other_region: Seq<char>,
    other_account_id: Seq<char>,
)
    ensures
        has_image(placed(amis, region, account_id, image), region, account_id),
        placed(amis, region, account_id, image)[region][account_id] == image,
        has_image(placed(amis, region, account_id, image), other_region, other_account_id) <==> (
        has_image(amis, other_region, other_account_id) || (other_region == region
            && other_account_id == account_id)),
        has_image(amis, other_region, other_account_id) && !(other_region == region
            && other_account_id == account_id) ==> placed(
            amis,
            region,
            account_id,
            image,
        )[other_region][other_account_id] == amis[other_region][other_account_id],
{
}

/// A region in which one account has an image is a map of that one account.
pub proof fn law_single_account_is_a_single_entry(
    amis: AmisView,
    region: Seq<char>,
    account_id: Seq<char>,
    image: ImageView,
)
    requires
        !amis.contains_key(region),
    ensures
        placed(amis, region, account_id, image)[region] == map![account_id => image],
        placed(amis, region, account_id, image)[region].len() == 1,
{
    let one = placed(amis, region, account_id, image)[region];
    assert(one =~= map![account_id => image]);
    assert(one.dom() =~= Set::empty().insert(account_id));
}

/// Two lists with distinct keys that hold the same pairs make the same map.
proof fn lemma_collected_same<A, B>(one: Seq<(A, B)>, two: Seq<(A, B)>)
    requires
        firsts(one).no_duplicates(),
        firsts(two).no_duplicates(),
        forall|i: int| 0 <= i < one.len() ==> two.contains(#[trigger] one[i]),
        forall|i: int| 0 <= i < two.len() ==> one.contains(#[trigger] two[i]),
    ensures
        collected(one) == collected(two),
{
    lemma_collected(one);
    lemma_collected(two);
    assert forall|k: A| #[trigger] collected(one).contains_key(k) implies collected(
        two,
    ).contains_key(k) && collected(one)[k] == collected(two)[k] by {
        let i = firsts(one).index_of(k);
        assert(one[i].0 == k);
        let j = two.index_of(one[i]);
        assert(two.contains(one[i]));
        assert(two[j] == one[i]);
        assert(firsts(two)[j] == k);
    }
    assert forall|k: A| #[trigger] collected(two).contains_key(k) implies collected(
        one,
    ).contains_key(k) by {
        let i = firsts(two).index_of(k);
        assert(two[i].0 == k);
        let j = one.index_of(two[i]);
        assert(one.contains(two[i]));
        assert(firsts(one)[j] == k);
    }
    assert(collected(one) =~= collected(two));
}

/// Whether each region of one listing is in another, with the same accounts in some order.
pub open spec fn listed_within(one: ListingView, two: ListingView) -> bool {
    forall|i: int|
        0 <= i < one.len() ==> exists|j: int|
            0 <= j < two.len() && (#[trigger] two[j]).0 == (#[trigger] one[i]).0
                && two[j].1.to_multiset() == one[i].1.to_multiset()
}

/// Where one listing is within another, so are the images that it lists.
proof fn lemma_listed_within(one: ListingView, two: ListingView)
    requires
        each_listed_once(one),
        each_listed_once(two),
        listed_within(one, two),
    ensures
        forall|i: int|
            0 <= i < one.len() ==> listed_regions(two).contains(#[trigger] listed_regions(one)[i]),
{
    assert forall|i: int| 0 <= i < one.len() implies listed_regions(two).contains(
        #[trigger] listed_regions(one)[i],
    ) by {
        let region = one[i];
        let j = choose|j: int|
            0 <= j < two.len() && (#[trigger] two[j]).0 == one[i].0 && two[j].1.to_multiset()
                == one[i].1.to_multiset();
        lemma_same_elements(one[i].1, two[j].1);
        lemma_same_elements(two[j].1, one[i].1);
        lemma_collected_same(one[i].1, two[j].1);
        assert(listed_regions(two)[j] == listed_regions(one)[i]);
    }
}

/// The order in which a map is listed does not matter: it is made again from its regions and
/// accounts, in whatever order they are.
pub proof fn law_listing_order_does_not_matter(
    amis: AmisView,
    listing: ListingView,
    reordered: ListingView,
)
    requires
        listed(listing) == amis,
        each_listed_once(listing),
        each_listed_once(reordered),
        listed_within(listing, reordered),
        listed_within(reordered, listing),
    ensures
        listed(reordered) == amis,
{
    lemma_listed_within(listing, reordered);
    lemma_listed_within(reordered, listing);
    assert(firsts(listed_regions(listing)) =~= firsts(listing));
    assert(firsts(listed_regions(reordered)) =~= firsts(reordered));
    lemma_collected_same(listed_regions(listing), listed_regions(reordered));
}

// ---------------------------------------------------------------------------------------------
// Accounts.
// ---------------------------------------------------------------------------------------------

/// The account IDs of a list of responses fail with the first response that gives none.
pub proof fn law_first_failing_response_decides(
    responses: Seq<SearchReplyView>,
    n: int,
    error: AmiErrorView,
)
    requires
        0 <= n < responses.len(),
        forall|i: int|
            0 <= i < n ==> account_in((#[trigger] responses[i]).0.region, responses[i].1) is Ok,
        account_in(responses[n].0.region, responses[n].1) == Err::<Seq<char>, AmiErrorView>(error),
    ensures
        account_ids_in(responses) == Err::<Map<RegionRoleView, Seq<char>>, AmiErrorView>(error),
{
    lemma_all_given(responses.take(n));
    assert(responses.take(n + 1).drop_last() =~= responses.take(n));
    lemma_first_error_stays(responses, n + 1);
}

/// Where every response gives an account ID, there is no error.
pub proof fn lemma_all_given(responses: Seq<SearchReplyView>)
    requires
        forall|i: int|
            0 <= i < responses.len() ==> account_in(
                (#[trigger] responses[i]).0.region,
                responses[i].1,
            ) is Ok,
    ensures
        account_ids_in(responses) is Ok,
    decreases responses.len(),
{
    if responses.len() > 0 {
        let init = responses.drop_last();
        assert forall|i: int| 0 <= i < init.len() implies account_in(
            (#[trigger] init[i]).0.region,
            init[i].1,
        ) is Ok by {
            assert(init[i] == responses[i]);
        }
        lemma_all_given(init);
        let last = responses[responses.len() - 1];
        assert(account_in(last.0.region, last.1) is Ok);
    }
}

/// Whether a list holds one answer for each target.
pub open spec fn consistent<R>(replies: Seq<(RegionRoleView, R)>) -> bool {
    forall|i: int, j: int|
        0 <= i < replies.len() && 0 <= j < replies.len() && (#[trigger] replies[i]).0 == (
        #[trigger] replies[j]).0 ==> replies[i].1 == replies[j].1
}

/// Where every response gives an account ID, each target has that of its response.
pub proof fn law_each_target_has_its_account(responses: Seq<SearchReplyView>)
    requires
        consistent(responses),
        forall|i: int|
            0 <= i < responses.len() ==> account_in(
                (#[trigger] responses[i]).0.region,
                responses[i].1,
            ) is Ok,
    ensures
        account_ids_in(responses) matches Ok(accounts) && {
            &&& forall|i: int|
                0 <= i < responses.len() ==> Ok::<Seq<char>, AmiErrorView>(
                    accounts[(#[trigger] responses[i]).0],
                ) == account_in(responses[i].0.region, responses[i].1)
            &&& forall|t: RegionRoleView| #[trigger]
                accounts.contains_key(t) <==> exists|i: int|
                    0 <= i < responses.len() && (#[trigger] responses[i]).0 == t
        },
    decreases responses.len(),
{
    lemma_all_given(responses);
    lemma_account_ids_domain(responses);
    if responses.len() > 0 {
        let init = responses.drop_last();
        assert forall|i: int| 0 <= i < init.len() implies account_in(
            (#[trigger] init[i]).0.region,
            init[i].1,
        ) is Ok by {
            assert(init[i] == responses[i]);
        }
        assert(consistent(init)) by {
            assert forall|i: int, j: int|
                0 <= i < init.len() && 0 <= j < init.len() && (#[trigger] init[i]).0 == (
                #[trigger] init[j]).0 implies init[i].1 == init[j].1 by {
                assert(init[i] == responses[i] && init[j] == responses[j]);
            }
        }
        law_each_target_has_its_account(init);
        let accounts = account_ids_in(responses)->Ok_0;
        let n = responses.len() - 1;
        assert forall|i: int| 0 <= i < responses.len() implies Ok::<Seq<char>, AmiErrorView>(
            accounts[(#[trigger] responses[i]).0],
        ) == account_in(responses[i].0.region, responses[i].1) by {
            if responses[i].0 == responses[n].0 {
                assert(responses[i].1 == responses[n].1);
            } else {
                assert(init[i] == responses[i]);
            }
        }
    }
}

/// The order in which the responses arrive does not matter to the account IDs that they give.
pub proof fn law_account_ids_ignore_arrival_order(
    responses: Seq<SearchReplyView>,
    reordered: Seq<SearchReplyView>,
)
    requires
        responses.to_multiset() == reordered.to_multiset(),
        consistent(responses),
        account_ids_in(responses) is Ok,
    ensures
        account_ids_in(reordered) == account_ids_in(responses),
{
    lemma_given_by_all(responses);
    lemma_same_elements(responses, reordered);
    lemma_same_elements(reordered, responses);
    assert forall|i: int| 0 <= i < reordered.len() implies account_in(
        (#[trigger] reordered[i]).0.region,
        reordered[i].1,
    ) is Ok by {
        let j = responses.index_of(reordered[i]);
        assert(responses.contains(reordered[i]));
        assert(responses[j] == reordered[i]);
    }
    assert(consistent(reordered)) by {
        assert forall|i: int, j: int|
            0 <= i < reordered.len() && 0 <= j < reordered.len() && (#[trigger] reordered[i]).0 == (
            #[trigger] reordered[j]).0 implies reordered[i].1 == reordered[j].1 by {
            let a = responses.index_of(reordered[i]);
            let b = responses.index_of(reordered[j]);
            assert(responses.contains(reordered[i]) && responses.contains(reordered[j]));
            assert(responses[a] == reordered[i] && responses[b] == reordered[j]);
        }
    }
    law_each_target_has_its_account(responses);
    law_each_target_has_its_account(reordered);
    let one = account_ids_in(responses)->Ok_0;
    let two = account_ids_in(reordered)->Ok_0;
    assert forall|t: RegionRoleView| #[trigger] one.contains_key(t) implies two.contains_key(t)
        && one[t] == two[t] by {
        let i = choose|i: int| 0 <= i < responses.len() && (#[trigger] responses[i]).0 == t;
        let j = reordered.index_of(responses[i]);
        assert(reordered.contains(responses[i]));
        assert(reordered[j] == responses[i]);
    }
    assert forall|t: RegionRoleView| #[trigger] two.contains_key(t) implies one.contains_key(t) by {
        let i = choose|i: int| 0 <= i < reordered.len() && (#[trigger] reordered[i]).0 == t;
        let j = responses.index_of(reordered[i]);
        assert(responses.contains(reordered[i]));
        assert(responses[j] == reordered[i]);
    }
    assert(one =~= two);
}

/// Where there is no error, every response gives an account ID.
proof fn lemma_given_by_all(responses: Seq<SearchReplyView>)
    requires
        account_ids_in(responses) is Ok,
    ensures
        forall|i: int|
            0 <= i < responses.len() ==> account_in(
                (#[trigger] responses[i]).0.region,
                responses[i].1,
            ) is Ok,
    decreases responses.len(),
{
    if responses.len() > 0 {
        let init = responses.drop_last();
        lemma_given_by_all(init);
        assert forall|i: int| 0 <= i < responses.len() implies account_in(
            (#[trigger] responses[i]).0.region,
            responses[i].1,
        ) is Ok by {
            if i < init.len() {
                assert(init[i] == responses[i]);
            }
        }
    }
}

/// Two lists that are a reordering of each other hold the same.
proof fn lemma_same_elements<A>(s: Seq<A>, t: Seq<A>)
    requires
        s.to_multiset() == t.to_multiset(),
    ensures
        forall|i: int| 0 <= i < t.len() ==> s.contains(#[trigger] t[i]),
{
    broadcast use vstd::seq_lib::group_to_multiset_ensures;

    assert forall|i: int| 0 <= i < t.len() implies s.contains(#[trigger] t[i]) by {
        assert(t.contains(t[i]));
        assert(t.to_multiset().contains(t[i]));
    }
}

/// Access is granted to the accounts of the targets and to no other, and never to the account
/// that owns the source image.
pub proof fn law_grants_are_the_other_accounts(
    accounts: Map<RegionRoleView, Seq<char>>,
    base_account_id: Seq<char>,
    account_id: Seq<char>,
)
    ensures
        grants_of(accounts, base_account_id).contains(account_id) <==> (account_id
            != base_account_id && exists|t: RegionRoleView| #[trigger]
            accounts.contains_key(t) && accounts[t] == account_id),
{
    if grants_of(accounts, base_account_id).contains(account_id) {
        let t = choose|t: RegionRoleView| #[trigger]
            accounts.contains_key(t) && accounts[t] == account_id;
        assert(accounts.contains_key(t));
    }
}

// ---------------------------------------------------------------------------------------------
// Copies.
// ---------------------------------------------------------------------------------------------

/// Whether a copy to a region gave an ID.
pub open spec fn copied_into(replies: Seq<CopyReplyView>, region: Seq<char>) -> bool {
    exists|i: int|
        0 <= i < replies.len() && gave_id(#[trigger] replies[i]) && replies[i].0.region == region
}

/// Whether a copy to an account in a region gave an ID.
pub open spec fn copied_to(
    accounts: Map<RegionRoleView, Seq<char>>,
    replies: Seq<CopyReplyView>,
    region: Seq<char>,
    account_id: Seq<char>,
) -> bool {
    exists|i: int|
        0 <= i < replies.len() && gave_id(#[trigger] replies[i]) && replies[i].0.region == region
            && accounts[replies[i].0] == account_id
}

/// Where copies went, by the last of them and by those before it.
proof fn lemma_copied_last(
    accounts: Map<RegionRoleView, Seq<char>>,
    replies: Seq<CopyReplyView>,
    region: Seq<char>,
    account_id: Seq<char>,
)
    requires
        replies.len() > 0,
    ensures
        copied_into(replies, region) <==> (copied_into(replies.drop_last(), region) || (gave_id(
            replies.last(),
        ) && replies.last().0.region == region)),
        copied_to(accounts, replies, region, account_id) <==> (copied_to(
            accounts,
            replies.drop_last(),
            region,
            account_id,
        ) || (gave_id(replies.last()) && replies.last().0.region == region
            && accounts[replies.last().0] == account_id)),
{
    let init = replies.drop_last();
    let n = replies.len() - 1;
    if copied_into(init, region) {
        let i = choose|i: int|
            0 <= i < init.len() && gave_id(#[trigger] init[i]) && init[i].0.region == region;
        assert(gave_id(replies[i]));
    }
    if copied_into(replies, region) {
        let i = choose|i: int|
            0 <= i < replies.len() && gave_id(#[trigger] replies[i]) && replies[i].0.region
                == region;
        if i < n {
            assert(gave_id(init[i]));
        }
    }
    if copied_to(accounts, init, region, account_id) {
        let i = choose|i: int|
            0 <= i < init.len() && gave_id(#[trigger] init[i]) && init[i].0.region == region
                && accounts[init[i].0] == account_id;
        assert(gave_id(replies[i]));
    }
    if copied_to(accounts, replies, region, account_id) {
        let i = choose|i: int|
            0 <= i < replies.len() && gave_id(#[trigger] replies[i]) && replies[i].0.region
                == region && accounts[replies[i].0] == account_id;
        if i < n {
            assert(gave_id(init[i]));
        }
    }
    if gave_id(replies.last()) {
        assert(gave_id(replies[n]));
    }
}

/// Copies add images where they gave an ID, and nowhere else, and what is elsewhere stays as it
/// was.
pub proof fn law_copies_add_their_places(
    amis: AmisView,
    name: Seq<char>,
    accounts: Map<RegionRoleView, Seq<char>>,
    replies: Seq<CopyReplyView>,
    region: Seq<char>,
    account_id: Seq<char>,
)
    ensures
        has_image(with_copies(amis, name, accounts, replies), region, account_id) <==> (has_image(
            amis,
            region,
            account_id,
        ) || copied_to(accounts, replies, region, account_id)),
        with_copies(amis, name, accounts, replies).contains_key(region) <==> (amis.contains_key(
            region,
        ) || copied_into(replies, region)),
        has_image(amis, region, account_id) && !copied_to(accounts, replies, region, account_id)
            ==> with_copies(amis, name, accounts, replies)[region][account_id]
            == amis[region][account_id],
    decreases replies.len(),
{
    if replies.len() > 0 {
        let init = replies.drop_last();
        let last = replies.last();
        law_copies_add_their_places(amis, name, accounts, init, region, account_id);
        lemma_copied_last(accounts, replies, region, account_id);
        if gave_id(last) {
            law_placed_image_is_found(
                with_copies(amis, name, accounts, init),
                last.0.region,
                accounts[last.0],
                copied_image(name, last.1->Ok_0->Some_0),
                region,
                account_id,
            );
        }
    }
}

/// Whether no two copies went to one place with different results.
pub open spec fn places_agree(
    accounts: Map<RegionRoleView, Seq<char>>,
    replies: Seq<CopyReplyView>,
) -> bool {
    forall|i: int, j: int|
        0 <= i < replies.len() && 0 <= j < replies.len() && gave_id(#[trigger] replies[i])
            && gave_id(#[trigger] replies[j]) && replies[i].0.region == replies[j].0.region
            && accounts[replies[i].0] == accounts[replies[j].0] ==> replies[i].1 == replies[j].1
}

/// A copied image is recorded under its ID and the name of the image that was copied, as not
/// public, with nobody else to launch it.
pub proof fn law_copied_image_is_private(
    amis: AmisView,
    name: Seq<char>,
    accounts: Map<RegionRoleView, Seq<char>>,
    replies: Seq<CopyReplyView>,
    n: int,
)
    requires
        0 <= n < replies.len(),
        gave_id(replies[n]),
        places_agree(accounts, replies),
    ensures
        with_copies(amis, name, accounts, replies)[replies[n].0.region][accounts[replies[n].0]]
            == (ImageView {
            id: replies[n].1->Ok_0->Some_0,
            name,
            public: Some(false),
            launch_permissions: Some(Seq::empty()),
        }),
    decreases replies.len(),
{
    let init = replies.drop_last();
    let last = replies.last();
    let before = with_copies(amis, name, accounts, init);
    let place = (replies[n].0.region, accounts[replies[n].0]);
    if n == replies.len() - 1 || (gave_id(last) && last.0.region == place.0 && accounts[last.0]
        == place.1) {
        assert(replies[replies.len() - 1] == last);
    } else {
        assert(init[n] == replies[n]);
        assert(places_agree(accounts, init)) by {
            assert forall|i: int, j: int|
                0 <= i < init.len() && 0 <= j < init.len() && gave_id(#[trigger] init[i])
                    && gave_id(#[trigger] init[j]) && init[i].0.region == init[j].0.region
                    && accounts[init[i].0] == accounts[init[j].0] implies init[i].1
                == init[j].1 by {
                assert(init[i] == replies[i] && init[j] == replies[j]);
            }
        }
        law_copied_image_is_private(amis, name, accounts, init, n);
        law_copies_add_their_places(amis, name, accounts, init, place.0, place.1);
        assert(gave_id(init[n]));
        if gave_id(last) {
            law_placed_image_is_found(
                before,
                last.0.region,
                accounts[last.0],
                copied_image(name, last.1->Ok_0->Some_0),
                place.0,
                place.1,
            );
        }
    }
}

/// Where one list of copies went, another that holds the same went too.
proof fn lemma_copied_elsewhere(
    accounts: Map<RegionRoleView, Seq<char>>,
    replies: Seq<CopyReplyView>,
    reordered: Seq<CopyReplyView>,
    region: Seq<char>,
    account_id: Seq<char>,
)
    requires
        forall|i: int| 0 <= i < replies.len() ==> reordered.contains(#[trigger] replies[i]),
    ensures
        copied_into(replies, region) ==> copied_into(reordered, region),
        copied_to(accounts, replies, region, account_id) ==> copied_to(
            accounts,
            reordered,
            region,
            account_id,
        ),
{
    if copied_into(replies, region) {
        let i = choose|i: int|
            0 <= i < replies.len() && gave_id(#[trigger] replies[i]) && replies[i].0.region
                == region;
        assert(reordered.contains(replies[i]));
        assert(gave_id(reordered[reordered.index_of(replies[i])]));
    }
    if copied_to(accounts, replies, region, account_id) {
        let i = choose|i: int|
            0 <= i < replies.len() && gave_id(#[trigger] replies[i]) && replies[i].0.region
                == region && accounts[replies[i].0] == account_id;
        assert(reordered.contains(replies[i]));
        assert(gave_id(reordered[reordered.index_of(replies[i])]));
    }
}

/// Two lists of copies that hold the same leave the same at a place.
proof fn lemma_same_at(
    amis: AmisView,
    name: Seq<char>,
    accounts: Map<RegionRoleView, Seq<char>>,
    replies: Seq<CopyReplyView>,
    reordered: Seq<CopyReplyView>,
    region: Seq<char>,
    account_id: Seq<char>,
)
    requires
        forall|i: int| 0 <= i < replies.len() ==> reordered.contains(#[trigger] replies[i]),
        forall|i: int| 0 <= i < reordered.len() ==> replies.contains(#[trigger] reordered[i]),
        places_agree(accounts, replies),
        places_agree(accounts, reordered),
    ensures
        with_copies(amis, name, accounts, replies).contains_key(region) <==> with_copies(
            amis,
            name,
            accounts,
            reordered,
        ).contains_key(region),
        has_image(with_copies(amis, name, accounts, replies), region, account_id) <==> has_image(
            with_copies(amis, name, accounts, reordered),
            region,
            account_id,
        ),
        has_image(with_copies(amis, name, accounts, replies), region, account_id) ==> with_copies(
            amis,
            name,
            accounts,
            replies,
        )[region][account_id] == with_copies(amis, name, accounts, reordered)[region][account_id],
{
    law_copies_add_their_places(amis, name, accounts, replies, region, account_id);
    law_copies_add_their_places(amis, name, accounts, reordered, region, account_id);
    lemma_copied_elsewhere(accounts, replies, reordered, region, account_id);
    lemma_copied_elsewhere(accounts, reordered, replies, region, account_id);
    if copied_to(accounts, replies, region, account_id) {
        let n = choose|i: int|
            0 <= i < replies.len() && gave_id(#[trigger] replies[i]) && replies[i].0.region
                == region && accounts[replies[i].0] == account_id;
        assert(reordered.contains(replies[n]));
        let m = reordered.index_of(replies[n]);
        law_copied_image_is_private(amis, name, accounts, replies, n);
        law_copied_image_is_private(amis, name, accounts, reordered, m);
    }
}

/// The order in which the replies arrive does not matter to the images that copies leave, as long
/// as no two of them went to one place with different results.
pub proof fn law_copies_ignore_arrival_order(
    amis: AmisView,
    name: Seq<char>,
    accounts: Map<RegionRoleView, Seq<char>>,
    replies: Seq<CopyReplyView>,
    reordered: Seq<CopyReplyView>,
)
    requires
        replies.to_multiset() == reordered.to_multiset(),
        places_agree(accounts, replies),
    ensures
        with_copies(amis, name, accounts, reordered) == with_copies(
            amis,
            name,
            accounts,
            replies,
        ),
{
    lemma_same_elements(replies, reordered);
    lemma_same_elements(reordered, replies);
    let one = with_copies(amis, name, accounts, replies);
    let two = with_copies(amis, name, accounts, reordered);
    assert(places_agree(accounts, reordered)) by {
        assert forall|i: int, j: int|
            0 <= i < reordered.len() && 0 <= j < reordered.len() && gave_id(#[trigger] reordered[i])
                && gave_id(#[trigger] reordered[j]) && reordered[i].0.region
                == reordered[j].0.region && accounts[reordered[i].0]
                == accounts[reordered[j].0] implies reordered[i].1 == reordered[j].1 by {
            assert(replies.contains(reordered[i]) && replies.contains(reordered[j]));
            let a = replies.index_of(reordered[i]);
            let b = replies.index_of(reordered[j]);
            assert(replies[a] == reordered[i] && replies[b] == reordered[j]);
        }
    }
    assert forall|r: Seq<char>| #[trigger] one.contains_key(r) <==> two.contains_key(r) by {
        lemma_same_at(amis, name, accounts, replies, reordered, r, Seq::empty());
    }
    assert forall|r: Seq<char>| one.contains_key(r) && two.contains_key(r) implies #[trigger] one[r]
        == two[r] by {
        assert forall|a: Seq<char>|
            (#[trigger] one[r].contains_key(a) <==> two[r].contains_key(a)) && (
            one[r].contains_key(a) ==> one[r][a] == two[r][a]) by {
            lemma_same_at(amis, name, accounts, replies, reordered, r, a);
        }
        assert(one[r] =~= two[r]);
    }
    assert(one =~= two);
}

/// Each copy is reported, in the order in which the replies arrived, and the publication succeeds
/// exactly when every report is of an image that was registered.
pub proof fn law_every_copy_is_reported(
    rollout: RolloutView,
    accounts: Map<RegionRoleView, Seq<char>>,
    replies: Seq<CopyReplyView>,
)
    ensures
        after_copies(rollout, accounts, replies) matches StageView::Finished { outcome, reports }
            && {
            &&& reports.len() == replies.len()
            &&& forall|i: int|
                0 <= i < replies.len() ==> (#[trigger] reports[i]) == report_of(
                    accounts,
                    replies[i],
                )
            &&& outcome is Ok <==> forall|i: int|
                0 <= i < reports.len() ==> (#[trigger] reports[i]).outcome is Registered
            &&& outcome is Err ==> outcome->Err_0 is AmiCopy
        },
{
    let end = after_copies(rollout, accounts, replies);
    let outcome = end->outcome;
    let reports = end->reports;
    if outcome is Ok {
        assert forall|i: int| 0 <= i < reports.len() implies (
        #[trigger] reports[i]).outcome is Registered by {
            assert(gave_id(replies[i]));
        }
    }
    if forall|i: int| 0 <= i < reports.len() ==> (#[trigger] reports[i]).outcome is Registered {
        assert forall|i: int| 0 <= i < replies.len() implies gave_id(#[trigger] replies[i]) by {
            assert(reports[i].outcome is Registered);
        }
    }
}

} // verus!
