//! A publication of what is published already.

use crate::course::{
    amispec_rendered, config_loaded, happened, law_copies_go_where_the_image_is_missing, legal,
    lemma_legal_take, lemma_on_course, missing, plan_made, published, published_everywhere,
    source_image, stage_after, targets_searched,
};
use crate::error::AmiErrorView;
use crate::failure::{has_reason_to_fail, law_no_failure_means_success, no_failure};
use crate::image::{has_image, ImageView};
use crate::model::{action_of, fits, AmisView};
use crate::origin::{
    accounts_are, copy_replied, found_there, has_origin, is_planned_place,
    law_images_are_as_answered, lemma_rollout_known, of_target, search_replied,
};
use crate::record::{law_every_image_is_described, lemma_recorded, no_empty_region};
use crate::stage::{EventView, JobView, SearchReplyView, StageView};
use crate::target::{PlanView, RegionRoleView};
use vstd::prelude::*;

verus! {

/// Whether an answer to a search tells of the image that a map has at the place that was searched,
/// where it has one.
pub open spec fn tells_of_images(
    stage: StageView,
    event: EventView,
    whose: spec_fn(RegionRoleView) -> Seq<char>,
    left: AmisView,
) -> bool {
    match (stage, event) {
        (StageView::ImageSought { job }, EventView::ImageSearched(reply)) => tells_of_image(
            (job.source, reply),
            whose,
            left,
        ),
        (StageView::ImagesSought { .. }, EventView::ImagesSearched(replies)) => forall|k: int|
            0 <= k < replies.len() ==> tells_of_image(#[trigger] replies[k], whose, left),
        _ => true,
    }
}

/// Whether the reply of a search at a place tells of the image that a map has there, where it has
/// one.
pub open spec fn tells_of_image(
    reply: SearchReplyView,
    whose: spec_fn(RegionRoleView) -> Seq<char>,
    left: AmisView,
) -> bool {
    let (at, found) = reply;
    has_image(left, at.region, whose(at)) ==> found == Ok::<Option<Seq<char>>, Seq<char>>(
        Some(left[at.region][whose(at)].id),
    )
}

/// Whether every search of a publication finds the images that a map has.
pub open spec fn finds(
    overrides: Seq<Seq<char>>,
    events: Seq<EventView>,
    whose: spec_fn(RegionRoleView) -> Seq<char>,
    left: AmisView,
) -> bool {
    forall|i: int|
        0 <= i < events.len() ==> tells_of_images(
            stage_after(overrides, events.take(i)),
            #[trigger] events[i],
            whose,
            left,
        )
}

/// Whether a map has an image at the place of the source and of each target.
pub open spec fn has_all(
    plan: PlanView,
    whose: spec_fn(RegionRoleView) -> Seq<char>,
    left: AmisView,
) -> bool {
    &&& has_image(left, plan.source.region, whose(plan.source))
    &&& forall|t: RegionRoleView| #[trigger]
        plan.targets.contains(t) ==> has_image(left, t.region, whose(t))
}

/// Whether two maps have the same regions, the same accounts in each, and under each the same ID
/// and name.
pub open spec fn same_images(one: AmisView, two: AmisView) -> bool {
    &&& one.dom() == two.dom()
    &&& forall|region: Seq<char>| #[trigger]
        one.contains_key(region) ==> one[region].dom() == two[region].dom()
    &&& forall|region: Seq<char>, account_id: Seq<char>|
        #![trigger has_image(one, region, account_id)]
        has_image(one, region, account_id) ==> {
            &&& one[region][account_id].id == two[region][account_id].id
            &&& one[region][account_id].name == two[region][account_id].name
        }
}

/// A list in which some target is missing holds a reply that says so.
proof fn lemma_some_reply_is_none(replies: Seq<SearchReplyView>)
    requires
        missing(replies).len() > 0,
    ensures
        exists|k: int|
            0 <= k < replies.len() && (#[trigger] replies[k]).1 == Ok::<
                Option<Seq<char>>,
                Seq<char>,
            >(None),
    decreases replies.len(),
{
    if replies.len() > 0 {
        if replies[0].1 != Ok::<Option<Seq<char>>, Seq<char>>(None) {
            let rest = replies.drop_first();
            lemma_some_reply_is_none(rest);
            let k = choose|k: int|
                0 <= k < rest.len() && (#[trigger] rest[k]).1 == Ok::<
                    Option<Seq<char>>,
                    Seq<char>,
                >(None);
            assert(replies[k + 1] == rest[k]);
        }
    }
}

/// The search at the source finds the image.
proof fn lemma_found_at_source(
    overrides: Seq<Seq<char>>,
    events: Seq<EventView>,
    plan: PlanView,
    whose: spec_fn(RegionRoleView) -> Seq<char>,
    left: AmisView,
)
    requires
        legal(overrides, events),
        plan_made(overrides, events, plan),
        finds(overrides, events, whose, left),
        has_all(plan, whose, left),
        events.len() > 2,
        events[2] is ImageSearched,
    ensures
        events[2] == EventView::ImageSearched(
            Ok(Some(left[plan.source.region][whose(plan.source)].id)),
        ),
{
    let head = events.take(2);
    let stage = stage_after(overrides, head);
    assert(fits(stage, events[2]));
    lemma_legal_take(overrides, events, 2);
    lemma_on_course(overrides, head);
    assert(head[0] == events[0]);
    let job = stage->ImageSought_job;
    assert(job.source == plan.source);
    assert(tells_of_images(stage, events[2], whose, left));
    assert(tells_of_image((job.source, events[2]->ImageSearched_0), whose, left));
}

/// Where every search finds the image, nothing is copied.
proof fn lemma_nothing_is_copied(
    overrides: Seq<Seq<char>>,
    events: Seq<EventView>,
    plan: PlanView,
    whose: spec_fn(RegionRoleView) -> Seq<char>,
    left: AmisView,
)
    requires
        legal(overrides, events),
        plan_made(overrides, events, plan),
        finds(overrides, events, whose, left),
        has_all(plan, whose, left),
    ensures
        stage_after(overrides, events) !is CopiesNeeded,
{
    if let StageView::CopiesNeeded { rollout, accounts, copies } = stage_after(overrides, events) {
        lemma_rollout_known(overrides, events, rollout);
        law_copies_go_where_the_image_is_missing(overrides, events, rollout, accounts, copies);
        reveal(happened);
        let kind = targets_searched(rollout.job, copies);
        let i = choose|i: int|
            0 <= i < events.len() && kind(
                stage_after(overrides, events.take(i)),
                #[trigger] events[i],
            );
        let stage = stage_after(overrides, events.take(i));
        let replies = events[i]->ImagesSearched_0;
        lemma_some_reply_is_none(replies);
        let k = choose|k: int|
            0 <= k < replies.len() && (#[trigger] replies[k]).1 == Ok::<
                Option<Seq<char>>,
                Seq<char>,
            >(None);
        assert(fits(stage, events[i]));
        assert(plan.targets.contains(replies[k].0));
        assert(tells_of_images(stage, events[i], whose, left));
        assert(tells_of_image(replies[k], whose, left));
    }
}

/// The beginning of a course finds the same, and follows the same plan.
proof fn lemma_beginning_finds(
    overrides: Seq<Seq<char>>,
    events: Seq<EventView>,
    plan: PlanView,
    whose: spec_fn(RegionRoleView) -> Seq<char>,
    left: AmisView,
    n: int,
)
    requires
        0 < n <= events.len(),
        plan_made(overrides, events, plan),
        finds(overrides, events, whose, left),
    ensures
        plan_made(overrides, events.take(n), plan),
        finds(overrides, events.take(n), whose, left),
{
    let head = events.take(n);
    assert(head[0] == events[0]);
    assert forall|i: int| 0 <= i < head.len() implies tells_of_images(
        stage_after(overrides, head.take(i)),
        #[trigger] head[i],
        whose,
        left,
    ) by {
        assert(head.take(i) =~= events.take(i));
        assert(tells_of_images(stage_after(overrides, events.take(i)), events[i], whose, left));
    }
}

/// An image of a target that a search found has the ID that the map has there.
proof fn lemma_target_keeps_its_id(
    overrides: Seq<Seq<char>>,
    events: Seq<EventView>,
    plan: PlanView,
    whose: spec_fn(RegionRoleView) -> Seq<char>,
    left: AmisView,
    target: RegionRoleView,
    image: ImageView,
)
    requires
        legal(overrides, events),
        plan_made(overrides, events, plan),
        finds(overrides, events, whose, left),
        has_all(plan, whose, left),
        plan.targets.contains(target),
        of_target(overrides, events, target, image),
    ensures
        image.id == left[target.region][whose(target)].id,
{
    reveal(happened);
    if found_there(overrides, events, target, image) {
        let reply = (target, Ok::<Option<Seq<char>>, Seq<char>>(Some(image.id)));
        let kind = search_replied(reply);
        let i = choose|i: int|
            0 <= i < events.len() && kind(
                stage_after(overrides, events.take(i)),
                #[trigger] events[i],
            );
        let stage = stage_after(overrides, events.take(i));
        let replies = events[i]->ImagesSearched_0;
        let k = replies.index_of(reply);
        assert(replies[k] == reply);
        assert(tells_of_images(stage, events[i], whose, left));
        assert(tells_of_image(replies[k], whose, left));
    } else {
        let kind = copy_replied((target, Ok(Some(image.id))));
        let i = choose|i: int|
            0 <= i < events.len() && kind(
                stage_after(overrides, events.take(i)),
                #[trigger] events[i],
            );
        let head = events.take(i);
        lemma_legal_take(overrides, events, i);
        lemma_recorded(overrides, head);
        lemma_beginning_finds(overrides, events, plan, whose, left, i);
        lemma_nothing_is_copied(overrides, head, plan, whose, left);
    }
}

/// Every image of the second run has the ID that the first one left there.
proof fn lemma_image_keeps_its_id(
    overrides: Seq<Seq<char>>,
    events: Seq<EventView>,
    plan: PlanView,
    whose: spec_fn(RegionRoleView) -> Seq<char>,
    left: AmisView,
    region: Seq<char>,
    account_id: Seq<char>,
    image: ImageView,
)
    requires
        legal(overrides, events),
        plan_made(overrides, events, plan),
        finds(overrides, events, whose, left),
        has_all(plan, whose, left),
        has_origin(overrides, events, plan, whose, region, account_id, image),
    ensures
        image.id == left[region][account_id].id,
{
    if region == plan.source.region && account_id == whose(plan.source) && source_image(events)
        == Some(image) {
        lemma_found_at_source(overrides, events, plan, whose, left);
    } else {
        let t = choose|t: RegionRoleView| #[trigger]
            plan.targets.contains(t) && t.region == region && whose(t) == account_id && of_target(
                overrides,
                events,
                t,
                image,
            );
        lemma_target_keeps_its_id(overrides, events, plan, whose, left, t, image);
    }
}

/// A successful publication followed a plan, and left an image at each of its places.
proof fn lemma_first_run(
    overrides: Seq<Seq<char>>,
    events: Seq<EventView>,
    left: AmisView,
    whose: spec_fn(RegionRoleView) -> Seq<char>,
) -> (plan: PlanView)
    requires
        legal(overrides, events),
        stage_after(overrides, events) matches StageView::Finished { outcome, .. } && outcome
            == Ok::<AmisView, AmiErrorView>(left),
        accounts_are(overrides, events, whose),
    ensures
        plan_made(overrides, events, plan),
        has_all(plan, whose, left),
        forall|region: Seq<char>, account_id: Seq<char>|
            #![trigger has_image(left, region, account_id)]
            has_image(left, region, account_id) <==> is_planned_place(
                plan,
                whose,
                region,
                account_id,
            ),
{
    lemma_on_course(overrides, events);
    assert(published_everywhere(overrides, events, left));
    let (job, account_id, accounts) = choose|
        job: JobView,
        account_id: Seq<char>,
        accounts: Map<RegionRoleView, Seq<char>>,
    | #[trigger]
        published(overrides, events, left, job, account_id, accounts);
    let plan = PlanView { source: job.source, targets: job.targets };
    law_images_are_as_answered(overrides, events, left, plan, whose);
    assert(has_image(left, plan.source.region, whose(plan.source)));
    assert forall|t: RegionRoleView| #[trigger] plan.targets.contains(t) implies has_image(
        left,
        t.region,
        whose(t),
    ) by {
        assert(is_planned_place(plan, whose, t.region, whose(t)));
    }
    plan
}

/// Two maps that have images at the same places, and no empty region, have the same regions and
/// accounts.
proof fn lemma_same_places(one: AmisView, two: AmisView)
    requires
        no_empty_region(one),
        no_empty_region(two),
        forall|region: Seq<char>, account_id: Seq<char>|
            #![trigger has_image(one, region, account_id)]
            #![trigger has_image(two, region, account_id)]
            has_image(one, region, account_id) <==> has_image(two, region, account_id),
    ensures
        one.dom() == two.dom(),
        forall|region: Seq<char>| #[trigger]
            one.contains_key(region) ==> one[region].dom() == two[region].dom(),
{
    assert forall|r: Seq<char>| one.contains_key(r) <==> two.contains_key(r) by {
        if one.contains_key(r) {
            let a = choose|a: Seq<char>| has_image(one, r, a);
            assert(has_image(two, r, a));
        }
        if two.contains_key(r) {
            let a = choose|a: Seq<char>| has_image(two, r, a);
            assert(has_image(one, r, a));
        }
    }
    assert(one.dom() =~= two.dom());
    assert forall|r: Seq<char>| #[trigger] one.contains_key(r) implies one[r].dom()
        == two[r].dom() by {
        assert(one.dom().contains(r));
        assert(two.contains_key(r));
        assert forall|a: Seq<char>| one[r].dom().contains(a) <==> two[r].dom().contains(a) by {
            assert(has_image(one, r, a) <==> has_image(two, r, a));
        }
        assert(one[r].dom() =~= two[r].dom());
    }
}

/// A second run that goes by what a first one went by has no reason to fail.
proof fn lemma_second_run_succeeds(
    overrides: Seq<Seq<char>>,
    first: Seq<EventView>,
    second: Seq<EventView>,
    plan: PlanView,
    left: AmisView,
    outcome: Result<AmisView, AmiErrorView>,
)
    requires
        legal(overrides, first),
        stage_after(overrides, first) matches StageView::Finished { outcome: o, .. } && o == Ok::<
            AmisView,
            AmiErrorView,
        >(left),
        legal(overrides, second),
        stage_after(overrides, second) matches StageView::Finished { outcome: o, .. } && o
            == outcome,
        plan_made(overrides, second, plan),
        amispec_rendered(second) == amispec_rendered(first),
        no_failure(second),
    ensures
        outcome is Ok,
{
    lemma_recorded(overrides, first);
    assert(!has_reason_to_fail(overrides, second));
    law_no_failure_means_success(overrides, second, outcome);
}

/// What a second run leaves is what a first run left.
proof fn lemma_same_images(
    overrides: Seq<Seq<char>>,
    first: Seq<EventView>,
    second: Seq<EventView>,
    plan: PlanView,
    whose: spec_fn(RegionRoleView) -> Seq<char>,
    left: AmisView,
    again: AmisView,
)
    requires
        legal(overrides, first),
        stage_after(overrides, first) matches StageView::Finished { outcome, .. } && outcome
            == Ok::<AmisView, AmiErrorView>(left),
        legal(overrides, second),
        stage_after(overrides, second) matches StageView::Finished { outcome, .. } && outcome
            == Ok::<AmisView, AmiErrorView>(again),
        amispec_rendered(second) == amispec_rendered(first),
        accounts_are(overrides, second, whose),
        finds(overrides, second, whose, left),
        plan_made(overrides, second, plan),
        has_all(plan, whose, left),
        forall|region: Seq<char>, account_id: Seq<char>|
            #![trigger has_image(left, region, account_id)]
            has_image(left, region, account_id) <==> is_planned_place(
                plan,
                whose,
                region,
                account_id,
            ),
    ensures
        same_images(left, again),
{
    law_images_are_as_answered(overrides, second, again, plan, whose);
    assert forall|r: Seq<char>, a: Seq<char>|
        #![trigger has_image(left, r, a)]
        #![trigger has_image(again, r, a)]
        has_image(left, r, a) <==> has_image(again, r, a) by {
        assert(is_planned_place(plan, whose, r, a) <==> has_image(left, r, a));
        assert(is_planned_place(plan, whose, r, a) <==> has_image(again, r, a));
    }
    assert(no_empty_region(left)) by {
        lemma_recorded(overrides, first);
    }
    assert(no_empty_region(again)) by {
        lemma_recorded(overrides, second);
    }
    lemma_same_places(left, again);
    assert forall|r: Seq<char>, a: Seq<char>|
        #![trigger has_image(left, r, a)]
        has_image(left, r, a) implies left[r][a].id == again[r][a].id && left[r][a].name
        == again[r][a].name by {
        assert(has_image(again, r, a));
        assert(has_origin(overrides, second, plan, whose, r, a, again[r][a]));
        lemma_image_keeps_its_id(overrides, second, plan, whose, left, r, a, again[r][a]);
        law_every_image_is_described(overrides, first, left, r, a);
        law_every_image_is_described(overrides, second, again, r, a);
    }
}

/// A second run on what a first run left changes nothing. Where it goes by the same configuration
/// and registration options, finds at each place the image that the first run left there and is
/// told of no failure, it asks neither for registration nor for copies, and when it ends it has
/// succeeded with the same regions, accounts, IDs and names.
pub proof fn law_second_run_changes_nothing(
    overrides: Seq<Seq<char>>,
    first: Seq<EventView>,
    second: Seq<EventView>,
    whose: spec_fn(RegionRoleView) -> Seq<char>,
    left: AmisView,
)
    requires
        legal(overrides, first),
        stage_after(overrides, first) matches StageView::Finished { outcome, .. } && outcome
            == Ok::<AmisView, AmiErrorView>(left),
        accounts_are(overrides, first, whose),
        legal(overrides, second),
        config_loaded(second) == config_loaded(first),
        amispec_rendered(second) == amispec_rendered(first),
        accounts_are(overrides, second, whose),
        finds(overrides, second, whose, left),
        no_failure(second),
    ensures
        action_of(stage_after(overrides, second)) !is RegisterImage,
        action_of(stage_after(overrides, second)) !is CopyImages,
        stage_after(overrides, second) matches StageView::Finished { outcome, .. } ==> (
        outcome matches Ok(again) && same_images(left, again)),
{
    let plan = lemma_first_run(overrides, first, left, whose);
    let stage = stage_after(overrides, second);
    lemma_nothing_is_copied(overrides, second, plan, whose, left);
    if stage is RegistrationNeeded {
        lemma_recorded(overrides, second);
        lemma_found_at_source(overrides, second, plan, whose, left);
    }
    if let StageView::Finished { outcome, .. } = stage {
        lemma_second_run_succeeds(overrides, first, second, plan, left, outcome);
        lemma_same_images(overrides, first, second, plan, whose, left, outcome->Ok_0);
    }
}

} // verus!
