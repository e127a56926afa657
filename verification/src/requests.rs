//! What a publication asks for, by what it was answered before.

use crate::course::{
    amispec_rendered, config_loaded, image_found, legal, lemma_legal_prefix, source_ids,
    stage_after,
};
use crate::identity::grants_of;
use crate::laws::law_grants_are_the_other_accounts;
use crate::model::action_of;
use crate::script::{
    account_at, found_in, job_in, lacking, lemma_accounts_stay, lemma_read_off, others_own_targets,
    read_off, search_at, search_known, search_replies, source_account, target_accounts,
};
use crate::stage::{
    ActionView, CopyRequestView, EventView, ModifyOptionsView, SearchReplyView, StageView,
};
use crate::target::{planned, RegionRoleView};
use vstd::prelude::*;

verus! {

// ---------------------------------------------------------------------------------------------
// At the source.
// ---------------------------------------------------------------------------------------------

/// The first request is for the configuration. With it, the registration options are rendered at
/// the source of the plan, and then the image is looked for there, by the name and for the
/// architecture that the options give.
pub proof fn law_first_requests(overrides: Seq<Seq<char>>, events: Seq<EventView>)
    requires
        legal(overrides, events),
        stage_after(overrides, events) !is Finished,
    ensures
        events.len() == 0 ==> action_of(stage_after(overrides, events)) is LoadConfig,
        events.len() == 1 ==> {
            &&& config_loaded(events) is Some
            &&& planned(overrides, config_loaded(events)->Some_0) is Ok
            &&& action_of(stage_after(overrides, events)) == (ActionView::RenderAmispec {
                at: planned(overrides, config_loaded(events)->Some_0)->Ok_0.source,
            })
        },
        events.len() == 2 ==> {
            &&& amispec_rendered(events) is Some
            &&& amispec_rendered(events)->Some_0.architecture is Some
            &&& action_of(stage_after(overrides, events)) == (ActionView::FindImage {
                at: planned(overrides, config_loaded(events)->Some_0)->Ok_0.source,
                name: amispec_rendered(events)->Some_0.name,
                arch: amispec_rendered(events)->Some_0.architecture->Some_0,
            })
        },
{
    lemma_read_off(overrides, events);
}

/// An image that the search at the source found is asked about at the source, by its ID: first for
/// its snapshots, then whether it is public, then who may launch it. Where the search found none,
/// the image is registered there.
pub proof fn law_found_or_registered_at_the_source(
    overrides: Seq<Seq<char>>,
    events: Seq<EventView>,
)
    requires
        legal(overrides, events),
        stage_after(overrides, events) !is Finished,
        events.len() > 2,
    ensures
        events[2] is ImageSearched,
        events[2]->ImageSearched_0 is Ok,
        events[2]->ImageSearched_0->Ok_0 matches Some(image_id) ==> {
            let at = job_in(overrides, events).source;
            let action = action_of(stage_after(overrides, events));
            &&& events.len() == 3 ==> action == (ActionView::ListSnapshots { at, image_id })
            &&& events.len() == 4 ==> action == (ActionView::CheckPublic { at, image_id })
            &&& events.len() == 5 ==> action == (ActionView::ListPermissions { at, image_id })
            &&& events.len() == 6 ==> action == (ActionView::ResolveAccount { at })
        },
        events[2]->ImageSearched_0->Ok_0 is None ==> {
            let at = job_in(overrides, events).source;
            let action = action_of(stage_after(overrides, events));
            &&& events.len() == 3 ==> action == (ActionView::RegisterImage { at })
            &&& events.len() == 4 ==> action == (ActionView::ResolveAccount { at })
        },
{
    lemma_searched_third(overrides, events);
    lemma_read_off(overrides, events);
}

/// The third answer is that of the search at the source.
proof fn lemma_searched_third(overrides: Seq<Seq<char>>, events: Seq<EventView>)
    requires
        legal(overrides, events),
        stage_after(overrides, events) !is Finished,
        events.len() > 2,
    ensures
        events[2] is ImageSearched,
        events[2]->ImageSearched_0 is Ok,
    decreases events.len(),
{
    let init = events.drop_last();
    lemma_legal_prefix(overrides, events);
    lemma_read_off(overrides, init);
    if events.len() == 3 {
        assert(events.last() == events[2]);
    } else {
        lemma_searched_third(overrides, init);
        assert(init[2] == events[2]);
    }
}

/// Once the account of the source is resolved, the image that was found or registered is awaited
/// at the source: once for an image that was there before, three times for a new one. Then the
/// account of every target of the plan is asked for.
pub proof fn law_targets_wait_for_the_image(overrides: Seq<Seq<char>>, events: Seq<EventView>)
    requires
        legal(overrides, events),
        stage_after(overrides, events) !is Finished,
        events.len() > 3,
    ensures
        events.len() == account_at(events) ==> action_of(stage_after(overrides, events)) == (
        ActionView::ResolveAccount { at: job_in(overrides, events).source }),
        events.len() == account_at(events) + 1 ==> {
            &&& source_ids(events) is Some
            &&& action_of(stage_after(overrides, events)) == (ActionView::AwaitImage {
                at: job_in(overrides, events).source,
                image_id: source_ids(events)->Some_0.image_id,
                state: "available"@,
                successes: if image_found(events) {
                    1u8
                } else {
                    3u8
                },
            })
        },
        events.len() == account_at(events) + 2 ==> action_of(stage_after(overrides, events)) == (
        ActionView::ResolveAccounts { targets: job_in(overrides, events).targets }),
{
    lemma_read_off(overrides, events);
}

// ---------------------------------------------------------------------------------------------
// Grants.
// ---------------------------------------------------------------------------------------------

/// Whether access is asked for the accounts of the targets other than that of the source, and for
/// nobody else.
pub open spec fn for_the_other_owners(options: ModifyOptionsView, events: Seq<EventView>) -> bool {
    &&& forall|account_id: Seq<char>| #[trigger]
        options.user_ids.contains(account_id) <==> account_id != source_account(events) && exists|
            t: RegionRoleView,
        | #[trigger]
            target_accounts(events).contains_key(t) && target_accounts(events)[t] == account_id
    &&& forall|name: Seq<char>| !#[trigger] options.group_names.contains(name)
    &&& forall|arn: Seq<char>| !#[trigger] options.organization_arns.contains(arn)
    &&& forall|arn: Seq<char>| !#[trigger] options.organizational_unit_arns.contains(arn)
}

/// The grants of a stage go to the other owners.
proof fn lemma_grants_go_to_the_other_owners(
    overrides: Seq<Seq<char>>,
    events: Seq<EventView>,
    options: ModifyOptionsView,
)
    requires
        options.user_ids == grants_of(target_accounts(events), source_account(events)),
        options.group_names == Set::<Seq<char>>::empty(),
        options.organization_arns == Set::<Seq<char>>::empty(),
        options.organizational_unit_arns == Set::<Seq<char>>::empty(),
    ensures
        for_the_other_owners(options, events),
{
    assert forall|a: Seq<char>| #[trigger] options.user_ids.contains(a) <==> a != source_account(
        events,
    ) && exists|t: RegionRoleView| #[trigger]
        target_accounts(events).contains_key(t) && target_accounts(events)[t] == a by {
        law_grants_are_the_other_accounts(target_accounts(events), source_account(events), a);
    }
}

/// What is granted at the source is access to every snapshot of the image there, and then to the
/// image itself, whether it was found or registered: to the accounts of the targets other than
/// that of the source, and to nobody else.
pub proof fn law_grants_are_for_the_whole_image(overrides: Seq<Seq<char>>, events: Seq<EventView>)
    requires
        legal(overrides, events),
    ensures
        action_of(stage_after(overrides, events)) matches ActionView::GrantSnapshots {
            at,
            options,
            snapshot_ids,
        } ==> {
            &&& at == job_in(overrides, events).source
            &&& source_ids(events) matches Some(ids) && snapshot_ids == ids.snapshot_ids
            &&& for_the_other_owners(options, events)
        },
        action_of(stage_after(overrides, events)) matches ActionView::GrantImage {
            at,
            options,
            image_id,
        } ==> {
            &&& at == job_in(overrides, events).source
            &&& source_ids(events) matches Some(ids) && image_id == ids.image_id
            &&& for_the_other_owners(options, events)
        },
{
    lemma_read_off(overrides, events);
    match action_of(stage_after(overrides, events)) {
        ActionView::GrantSnapshots { options, .. } => {
            lemma_grants_go_to_the_other_owners(overrides, events, options);
        },
        ActionView::GrantImage { options, .. } => {
            lemma_grants_go_to_the_other_owners(overrides, events, options);
        },
        _ => {},
    }
}

/// Where others own targets, the answer with the accounts of the targets is followed by the two
/// grants, the snapshots first, and then by the search at the targets. Where nobody else does, the
/// search follows at once.
pub proof fn law_grants_come_before_the_search(overrides: Seq<Seq<char>>, events: Seq<EventView>)
    requires
        legal(overrides, events),
        stage_after(overrides, events) !is Finished,
        events.len() > account_at(events) + 2,
        events.len() > 3,
    ensures
        others_own_targets(events) && events.len() == account_at(events) + 3 ==> action_of(
            stage_after(overrides, events),
        ) is GrantSnapshots,
        others_own_targets(events) && events.len() == account_at(events) + 4 ==> action_of(
            stage_after(overrides, events),
        ) is GrantImage,
        events.len() == search_at(events) ==> action_of(stage_after(overrides, events)) == (
        ActionView::FindImages {
            targets: job_in(overrides, events).targets,
            name: job_in(overrides, events).name,
            arch: job_in(overrides, events).arch,
        }),
{
    lemma_read_off(overrides, events);
}

// ---------------------------------------------------------------------------------------------
// At the targets.
// ---------------------------------------------------------------------------------------------

/// There is one answer to the search at the targets, and it has its place.
pub proof fn lemma_search_has_its_place(
    overrides: Seq<Seq<char>>,
    events: Seq<EventView>,
    s: int,
)
    requires
        legal(overrides, events),
        0 <= s < events.len(),
        events[s] is ImagesSearched,
    ensures
        search_known(events),
        s == search_at(events),
    decreases events.len(),
{
    let init = events.drop_last();
    lemma_legal_prefix(overrides, events);
    lemma_read_off(overrides, init);
    if s == events.len() - 1 {
        assert(events.last() == events[s]);
        assert(stage_after(overrides, init) is ImagesSought);
        lemma_accounts_stay(overrides, events);
        let k = account_at(init);
        if others_own_targets(init) {
            assert(init[k + 3] == events[k + 3]);
            assert(init[k + 4] == events[k + 4]);
        }
    } else {
        assert(init[s] == events[s]);
        lemma_search_has_its_place(overrides, init, s);
        lemma_accounts_stay(overrides, events);
    }
}

/// Found images are those that the replies tell of.
proof fn lemma_found_is_replied(replies: Seq<SearchReplyView>, j: int)
    requires
        0 <= j < found_in(replies).len(),
    ensures
        replies.contains(
            (
                found_in(replies)[j].0,
                Ok::<Option<Seq<char>>, Seq<char>>(Some(found_in(replies)[j].1)),
            ),
        ),
    decreases replies.len(),
{
    if replies.len() > 0 {
        let init = replies.drop_last();
        let reply = (
            found_in(replies)[j].0,
            Ok::<Option<Seq<char>>, Seq<char>>(Some(found_in(replies)[j].1)),
        );
        if j < found_in(init).len() {
            lemma_found_is_replied(init, j);
            assert(replies[init.index_of(reply)] == reply);
        } else {
            assert(replies[replies.len() - 1] == reply);
        }
    }
}

/// The images found by the beginning of a list are the first of those that the list finds.
proof fn lemma_found_in_beginning(replies: Seq<SearchReplyView>, p: int)
    requires
        0 <= p < replies.len(),
        replies[p].1 is Ok,
        replies[p].1->Ok_0 is Some,
    ensures
        found_in(replies.take(p)).len() < found_in(replies).len(),
        found_in(replies)[found_in(replies.take(p)).len() as int] == (
            replies[p].0,
            replies[p].1->Ok_0->Some_0,
        ),
    decreases replies.len(),
{
    let init = replies.drop_last();
    if p == init.len() {
        assert(replies.take(p) =~= init);
    } else {
        assert(init.take(p) =~= replies.take(p));
        assert(init[p] == replies[p]);
        lemma_found_in_beginning(init, p);
    }
}

/// After the search, images are asked about or copied.
proof fn lemma_after_the_search(
    overrides: Seq<Seq<char>>,
    events: Seq<EventView>,
    stage: StageView,
)
    requires
        read_off(overrides, events, stage),
        search_known(events),
        stage !is Finished,
    ensures
        stage is TargetPublicNeeded || stage is TargetPermissionsNeeded || stage is CopiesNeeded,
{
}

/// Where an image is asked about, and which.
proof fn lemma_asked_about(overrides: Seq<Seq<char>>, events: Seq<EventView>, stage: StageView)
    requires
        read_off(overrides, events, stage),
    ensures
        stage is TargetPublicNeeded ==> {
            let replies = search_replies(events);
            let j = (events.len() - search_at(events) - 1) / 2;
            &&& events.len() == search_at(events) + 1 + 2 * j
            &&& 0 <= j < found_in(replies).len()
            &&& action_of(stage) == (ActionView::CheckPublic {
                at: found_in(replies)[j].0,
                image_id: found_in(replies)[j].1,
            })
        },
        stage is TargetPermissionsNeeded ==> {
            let replies = search_replies(events);
            let j = (events.len() - search_at(events) - 2) / 2;
            &&& events.len() == search_at(events) + 2 + 2 * j
            &&& 0 <= j < found_in(replies).len()
            &&& action_of(stage) == (ActionView::ListPermissions {
                at: found_in(replies)[j].0,
                image_id: found_in(replies)[j].1,
            })
        },
        stage is CopiesNeeded ==> events.len() == search_at(events) + 1 + 2 * found_in(
            search_replies(events),
        ).len() && action_of(stage) is CopyImages,
{
    let replies = search_replies(events);
    match stage {
        StageView::TargetPublicNeeded { survey, .. } => {
            let p = replies.len() - survey.pending.len() - 1;
            lemma_found_in_beginning(replies, p);
        },
        StageView::TargetPermissionsNeeded { survey, .. } => {
            let p = replies.len() - survey.pending.len() - 1;
            lemma_found_in_beginning(replies, p);
        },
        _ => {},
    }
}

/// What is asked about the images that the search found.
proof fn lemma_questions(
    overrides: Seq<Seq<char>>,
    events: Seq<EventView>,
    s: int,
    stage: StageView,
)
    requires
        read_off(overrides, events, stage),
        stage !is Finished,
        search_known(events),
        s == search_at(events),
    ensures
        action_of(stage) matches ActionView::CheckPublic { at, image_id }
            ==> {
            let j = (events.len() - s - 1) / 2;
            &&& events.len() == s + 1 + 2 * j
            &&& 0 <= j < found_in(events[s]->ImagesSearched_0).len()
            &&& found_in(events[s]->ImagesSearched_0)[j] == (at, image_id)
            &&& events[s]->ImagesSearched_0.contains((at, Ok(Some(image_id))))
        },
        action_of(stage) matches ActionView::ListPermissions {
            at,
            image_id,
        } ==> {
            let j = (events.len() - s - 2) / 2;
            &&& events.len() == s + 2 + 2 * j
            &&& 0 <= j < found_in(events[s]->ImagesSearched_0).len()
            &&& found_in(events[s]->ImagesSearched_0)[j] == (at, image_id)
            &&& events[s]->ImagesSearched_0.contains((at, Ok(Some(image_id))))
        },
        action_of(stage) is CheckPublic || action_of(stage) is ListPermissions || action_of(
            stage,
        ) is CopyImages,
        // As long as an image is left, it is asked about.
        events.len() < s + 1 + 2 * found_in(events[s]->ImagesSearched_0).len() ==> if (events.len()
            - s) % 2 == 1 {
            action_of(stage) is CheckPublic
        } else {
            action_of(stage) is ListPermissions
        },
{
    let replies = search_replies(events);
    lemma_after_the_search(overrides, events, stage);
    lemma_asked_about(overrides, events, stage);
    if stage is TargetPublicNeeded {
        lemma_found_is_replied(replies, (events.len() - s - 1) / 2);
    }
    if stage is TargetPermissionsNeeded {
        lemma_found_is_replied(replies, (events.len() - s - 2) / 2);
    }
}

/// A question about an image that is asked after the search at the targets is asked of the very
/// target, region and role, at which the search found it, by the ID that the search gave. The
/// images are asked about one after the other, in the order in which the search told of them,
/// first whether they are public and then who may launch them.
pub proof fn law_found_images_are_asked_about_where_they_are(
    overrides: Seq<Seq<char>>,
    events: Seq<EventView>,
    s: int,
)
    requires
        legal(overrides, events),
        stage_after(overrides, events) !is Finished,
        0 <= s < events.len(),
        events[s] is ImagesSearched,
    ensures
        action_of(stage_after(overrides, events)) matches ActionView::CheckPublic { at, image_id }
            ==> {
            let j = (events.len() - s - 1) / 2;
            &&& events.len() == s + 1 + 2 * j
            &&& 0 <= j < found_in(events[s]->ImagesSearched_0).len()
            &&& found_in(events[s]->ImagesSearched_0)[j] == (at, image_id)
            &&& events[s]->ImagesSearched_0.contains((at, Ok(Some(image_id))))
        },
        action_of(stage_after(overrides, events)) matches ActionView::ListPermissions {
            at,
            image_id,
        } ==> {
            let j = (events.len() - s - 2) / 2;
            &&& events.len() == s + 2 + 2 * j
            &&& 0 <= j < found_in(events[s]->ImagesSearched_0).len()
            &&& found_in(events[s]->ImagesSearched_0)[j] == (at, image_id)
            &&& events[s]->ImagesSearched_0.contains((at, Ok(Some(image_id))))
        },
        action_of(stage_after(overrides, events)) is CheckPublic || action_of(
            stage_after(overrides, events),
        ) is ListPermissions || action_of(stage_after(overrides, events)) is CopyImages,
        // As long as an image is left, it is asked about.
        events.len() < s + 1 + 2 * found_in(events[s]->ImagesSearched_0).len() ==> if (events.len()
            - s) % 2 == 1 {
            action_of(stage_after(overrides, events)) is CheckPublic
        } else {
            action_of(stage_after(overrides, events)) is ListPermissions
        },
{
    lemma_read_off(overrides, events);
    lemma_search_has_its_place(overrides, events, s);
    lemma_questions(overrides, events, s, stage_after(overrides, events));
}

/// The copies that are asked for are one for each target that the search found to lack the image,
/// in the order in which the search told of them, whatever their number. Each is sent to that very
/// target, region and role, and copies the image that was found or registered at the source, from
/// the region of the source, under the name and with the description of the registration options,
/// and with its tags.
pub proof fn law_one_copy_for_each_target_without_the_image(
    overrides: Seq<Seq<char>>,
    events: Seq<EventView>,
    s: int,
    requests: Seq<CopyRequestView>,
)
    requires
        legal(overrides, events),
        0 <= s < events.len(),
        events[s] is ImagesSearched,
        action_of(stage_after(overrides, events)) == (ActionView::CopyImages { requests }),
    ensures
        requests.len() == lacking(events[s]->ImagesSearched_0).len(),
        requests.len() > 0,
        events.len() == s + 1 + 2 * found_in(events[s]->ImagesSearched_0).len(),
        forall|i: int|
            0 <= i < requests.len() ==> {
                &&& (#[trigger] requests[i]).target == lacking(events[s]->ImagesSearched_0)[i]
                &&& requests[i].description == amispec_rendered(events)->Some_0.description
                &&& requests[i].name == amispec_rendered(events)->Some_0.name
                &&& requests[i].source_image_id == source_ids(events)->Some_0.image_id
                &&& requests[i].source_region == job_in(overrides, events).source.region
                &&& requests[i].copy_image_tags
            },
        amispec_rendered(events) is Some,
        source_ids(events) is Some,
{
    lemma_read_off(overrides, events);
    lemma_search_has_its_place(overrides, events, s);
}

/// What lacks the image, and what has it: each reply of a search without a failure is counted once.
pub proof fn law_each_target_has_the_image_or_lacks_it(replies: Seq<SearchReplyView>)
    requires
        forall|i: int| 0 <= i < replies.len() ==> (#[trigger] replies[i]).1 is Ok,
    ensures
        found_in(replies).len() + lacking(replies).len() == replies.len(),
        forall|i: int|
            0 <= i < replies.len() && (#[trigger] replies[i]).1->Ok_0 is None ==> lacking(
                replies,
            ).contains(replies[i].0),
        forall|i: int|
            0 <= i < replies.len() && (#[trigger] replies[i]).1->Ok_0 is Some ==> found_in(
                replies,
            ).contains((replies[i].0, replies[i].1->Ok_0->Some_0)),
    decreases replies.len(),
{
    if replies.len() > 0 {
        let init = replies.drop_last();
        let last = replies[replies.len() - 1];
        assert forall|i: int| 0 <= i < init.len() implies (#[trigger] init[i]).1 is Ok by {
            assert(init[i] == replies[i]);
        }
        law_each_target_has_the_image_or_lacks_it(init);
        assert(last.1 is Ok);
        assert forall|i: int|
            0 <= i < replies.len() && (#[trigger] replies[i]).1->Ok_0 is None implies lacking(
            replies,
        ).contains(replies[i].0) by {
            if i < init.len() {
                assert(init[i] == replies[i]);
                let k = lacking(init).index_of(init[i].0);
                assert(lacking(replies)[k] == replies[i].0);
            } else {
                assert(lacking(replies)[lacking(init).len() as int] == last.0);
            }
        }
        assert forall|i: int|
            0 <= i < replies.len() && (#[trigger] replies[i]).1->Ok_0 is Some implies found_in(
            replies,
        ).contains((replies[i].0, replies[i].1->Ok_0->Some_0)) by {
            if i < init.len() {
                assert(init[i] == replies[i]);
                let pair = (init[i].0, init[i].1->Ok_0->Some_0);
                assert(found_in(init).contains(pair));
                assert(found_in(replies)[found_in(init).index_of(pair)] == pair);
            } else {
                assert(found_in(replies)[found_in(init).len() as int] == (
                    last.0,
                    last.1->Ok_0->Some_0,
                ));
            }
        }
    }
}

} // verus!
