//! Where what is recorded of each image comes from.

use crate::course::{
    amispec_rendered, config_loaded, covers, happened, is_place,
    law_copies_go_where_the_image_is_missing, law_success_covers_every_target,
    law_well_formed_throughout, legal, lemma_happened_before, lemma_happened_now,
    lemma_legal_prefix, lemma_on_course, on_course, plan_made, published, rollout_of, source_image,
    source_resolved, stage_after, targets_resolved,
};
use crate::error::AmiErrorView;
use crate::identity::account_ids_in;
use crate::image::{has_image, placed, ImageView, LaunchPermissionView};
use crate::laws::{law_placed_image_is_found, law_plan_reaches_every_pair};
use crate::model::{
    after_accounts, after_copies, after_searches, answers, copied_image, fits, gave_id,
    lemma_account_ids_domain, next, surveyed, with_copies, with_found, AmisView,
};
use crate::record::{lemma_recorded, recorded, rollout_recorded};
use crate::stage::{
    CopyReplyView, EventView, JobView, RolloutView, SearchReplyView, StageView, SurveyView,
};
use crate::target::{PlanView, RegionRoleView};
use vstd::prelude::*;

verus! {

// ---------------------------------------------------------------------------------------------
// What was answered about a target.
// ---------------------------------------------------------------------------------------------

/// The search at the targets gave this reply.
pub open spec fn search_replied(reply: SearchReplyView) -> spec_fn(StageView, EventView) -> bool {
    |stage: StageView, event: EventView|
        {
            &&& stage is ImagesSought
            &&& event is ImagesSearched
            &&& event->ImagesSearched_0.contains(reply)
        }
}

/// It was answered whether the image of a target is public.
pub open spec fn public_answered(
    target: RegionRoleView,
    image_id: Seq<char>,
    public: bool,
) -> spec_fn(StageView, EventView) -> bool {
    |stage: StageView, event: EventView|
        {
            &&& stage is TargetPublicNeeded
            &&& stage->TargetPublicNeeded_target == target
            &&& stage->TargetPublicNeeded_image_id == image_id
            &&& event == EventView::PublicChecked(Ok(public))
        }
}

/// It was answered who may launch the image of a target.
pub open spec fn permissions_answered(
    target: RegionRoleView,
    image_id: Seq<char>,
    launch_permissions: Seq<LaunchPermissionView>,
) -> spec_fn(StageView, EventView) -> bool {
    |stage: StageView, event: EventView|
        {
            &&& stage is TargetPermissionsNeeded
            &&& stage->TargetPermissionsNeeded_target == target
            &&& stage->TargetPermissionsNeeded_image_id == image_id
            &&& event == EventView::PermissionsListed(Ok(launch_permissions))
        }
}

/// The copies gave this reply.
pub open spec fn copy_replied(reply: CopyReplyView) -> spec_fn(StageView, EventView) -> bool {
    |stage: StageView, event: EventView|
        {
            &&& stage is CopiesNeeded
            &&& event is ImagesCopied
            &&& event->ImagesCopied_0.contains(reply)
        }
}

/// Whether an image bears the name that the registration options give.
pub open spec fn named(events: Seq<EventView>, image: ImageView) -> bool {
    match amispec_rendered(events) {
        Some(amispec) => image.name == amispec.name,
        None => false,
    }
}

/// Whether what is recorded of an image is what was found at a target and answered about it.
pub open spec fn found_there(
    overrides: Seq<Seq<char>>,
    events: Seq<EventView>,
    target: RegionRoleView,
    image: ImageView,
) -> bool {
    &&& named(events, image)
    &&& happened(overrides, events, search_replied((target, Ok(Some(image.id)))))
    &&& image.public is Some
    &&& happened(overrides, events, public_answered(target, image.id, image.public->Some_0))
    &&& image.launch_permissions is Some
    &&& happened(
        overrides,
        events,
        permissions_answered(target, image.id, image.launch_permissions->Some_0),
    )
}

/// Whether what is recorded of an image is what was copied to a target: it is not public, and
/// nobody else may launch it.
pub open spec fn copied_there(
    overrides: Seq<Seq<char>>,
    events: Seq<EventView>,
    target: RegionRoleView,
    image: ImageView,
) -> bool {
    &&& named(events, image)
    &&& image.public == Some(false)
    &&& image.launch_permissions == Some(Seq::<LaunchPermissionView>::empty())
    &&& happened(overrides, events, copy_replied((target, Ok(Some(image.id)))))
}

/// Whether an image was found at a target or copied to it.
pub open spec fn of_target(
    overrides: Seq<Seq<char>>,
    events: Seq<EventView>,
    target: RegionRoleView,
    image: ImageView,
) -> bool {
    found_there(overrides, events, target, image) || copied_there(overrides, events, target, image)
}

// ---------------------------------------------------------------------------------------------
// Whose image is where.
// ---------------------------------------------------------------------------------------------

/// Whether the accounts that a publication resolved are those that a function gives.
pub open spec fn accounts_are(
    overrides: Seq<Seq<char>>,
    events: Seq<EventView>,
    whose: spec_fn(RegionRoleView) -> Seq<char>,
) -> bool {
    forall|i: int|
        0 <= i < events.len() ==> account_agrees(
            stage_after(overrides, events.take(i)),
            #[trigger] events[i],
            whose,
        )
}

/// Whether the accounts that an answer resolves are those that a function gives.
pub open spec fn account_agrees(
    stage: StageView,
    event: EventView,
    whose: spec_fn(RegionRoleView) -> Seq<char>,
) -> bool {
    match (stage, event) {
        (
            StageView::AccountNeeded { job, .. },
            EventView::AccountResolved(Ok(Some(account_id))),
        ) => account_id == whose(job.source),
        (StageView::AccountsNeeded { .. }, EventView::AccountsResolved(replies)) => {
            account_ids_in(replies) matches Ok(accounts) ==> accounts_by(accounts, whose)
        },
        _ => true,
    }
}

/// Whether the account of each target is the one that a function gives.
pub open spec fn accounts_by(
    accounts: Map<RegionRoleView, Seq<char>>,
    whose: spec_fn(RegionRoleView) -> Seq<char>,
) -> bool {
    forall|t: RegionRoleView| #[trigger] accounts.contains_key(t) ==> accounts[t] == whose(t)
}

/// Whether an image at a place is that of the source, or that of a target which has its place
/// there.
pub open spec fn has_origin(
    overrides: Seq<Seq<char>>,
    events: Seq<EventView>,
    plan: PlanView,
    whose: spec_fn(RegionRoleView) -> Seq<char>,
    region: Seq<char>,
    account_id: Seq<char>,
    image: ImageView,
) -> bool {
    ||| (region == plan.source.region && account_id == whose(plan.source) && source_image(events)
        == Some(image))
    ||| exists|t: RegionRoleView| #[trigger]
        plan.targets.contains(t) && t.region == region && whose(t) == account_id && of_target(
            overrides,
            events,
            t,
            image,
        )
}

/// Whether every image is that of the source or of a target, as it was answered.
pub open spec fn all_have_origin(
    overrides: Seq<Seq<char>>,
    events: Seq<EventView>,
    plan: PlanView,
    whose: spec_fn(RegionRoleView) -> Seq<char>,
    amis: AmisView,
) -> bool {
    forall|region: Seq<char>, account_id: Seq<char>|
        #![trigger has_image(amis, region, account_id)]
        has_image(amis, region, account_id) ==> has_origin(
            overrides,
            events,
            plan,
            whose,
            region,
            account_id,
            amis[region][account_id],
        )
}

/// The plan of a rollout.
pub open spec fn plan_of(rollout: RolloutView) -> PlanView {
    PlanView { source: rollout.job.source, targets: rollout.job.targets }
}

/// What is known of the images of a rollout.
pub open spec fn rollout_traced(
    overrides: Seq<Seq<char>>,
    events: Seq<EventView>,
    whose: spec_fn(RegionRoleView) -> Seq<char>,
    rollout: RolloutView,
) -> bool {
    all_have_origin(overrides, events, plan_of(rollout), whose, rollout.amis)
}

/// What is known of the images of a survey, and of the replies that it is yet to look at.
pub open spec fn survey_traced(
    overrides: Seq<Seq<char>>,
    events: Seq<EventView>,
    whose: spec_fn(RegionRoleView) -> Seq<char>,
    survey: SurveyView,
) -> bool {
    &&& rollout_traced(overrides, events, whose, survey.rollout)
    &&& accounts_by(survey.accounts, whose)
    &&& forall|i: int|
        0 <= i < survey.pending.len() ==> happened(
            overrides,
            events,
            search_replied(#[trigger] survey.pending[i]),
        )
}

/// What every stage knows of where its images come from.
pub open spec fn traced(
    overrides: Seq<Seq<char>>,
    events: Seq<EventView>,
    whose: spec_fn(RegionRoleView) -> Seq<char>,
    stage: StageView,
) -> bool {
    match stage {
        StageView::AvailabilityNeeded { rollout } => {
            rollout_traced(overrides, events, whose, rollout)
        },
        StageView::AccountsNeeded { rollout } => rollout_traced(overrides, events, whose, rollout),
        StageView::SnapshotGrantNeeded { rollout, accounts } => {
            rollout_traced(overrides, events, whose, rollout) && accounts_by(accounts, whose)
        },
        StageView::ImageGrantNeeded { rollout, accounts } => {
            rollout_traced(overrides, events, whose, rollout) && accounts_by(accounts, whose)
        },
        StageView::ImagesSought { rollout, accounts } => {
            rollout_traced(overrides, events, whose, rollout) && accounts_by(accounts, whose)
        },
        StageView::TargetPublicNeeded { survey, target, image_id } => {
            &&& survey_traced(overrides, events, whose, survey)
            &&& happened(overrides, events, search_replied((target, Ok(Some(image_id)))))
        },
        StageView::TargetPermissionsNeeded { survey, target, image_id, public } => {
            &&& survey_traced(overrides, events, whose, survey)
            &&& happened(overrides, events, search_replied((target, Ok(Some(image_id)))))
            &&& happened(overrides, events, public_answered(target, image_id, public))
        },
        StageView::CopiesNeeded { rollout, accounts, .. } => {
            rollout_traced(overrides, events, whose, rollout) && accounts_by(accounts, whose)
        },
        StageView::Finished { outcome, .. } => match outcome {
            Ok(amis) => forall|plan: PlanView| #[trigger]
                plan_made(overrides, events, plan) ==> all_have_origin(
                    overrides,
                    events,
                    plan,
                    whose,
                    amis,
                ),
            Err(_) => true,
        },
        _ => true,
    }
}

// ---------------------------------------------------------------------------------------------
// Each answer keeps the trace.
// ---------------------------------------------------------------------------------------------

/// Where an image comes from does not change as more answers come.
proof fn lemma_origin_stays(
    overrides: Seq<Seq<char>>,
    events: Seq<EventView>,
    plan: PlanView,
    whose: spec_fn(RegionRoleView) -> Seq<char>,
    amis: AmisView,
)
    requires
        events.len() > 0,
        all_have_origin(overrides, events.drop_last(), plan, whose, amis),
    ensures
        all_have_origin(overrides, events, plan, whose, amis),
{
    let init = events.drop_last();
    assert forall|i: int| 0 <= i < init.len() implies init[i] == events[i] by {}
    assert forall|r: Seq<char>, a: Seq<char>|
        #![trigger has_image(amis, r, a)]
        has_image(amis, r, a) implies has_origin(
        overrides,
        events,
        plan,
        whose,
        r,
        a,
        amis[r][a],
    ) by {
        let image = amis[r][a];
        assert(has_origin(overrides, init, plan, whose, r, a, image));
        if source_image(init) == Some(image) {
            assert(source_image(events) == Some(image));
        }
        if exists|t: RegionRoleView| #[trigger]
            plan.targets.contains(t) && t.region == r && whose(t) == a && of_target(
                overrides,
                init,
                t,
                image,
            ) {
            let t = choose|t: RegionRoleView| #[trigger]
                plan.targets.contains(t) && t.region == r && whose(t) == a && of_target(
                    overrides,
                    init,
                    t,
                    image,
                );
            lemma_of_target_stays(overrides, events, t, image);
        }
    }
}

/// An image of a target stays one.
proof fn lemma_of_target_stays(
    overrides: Seq<Seq<char>>,
    events: Seq<EventView>,
    target: RegionRoleView,
    image: ImageView,
)
    requires
        events.len() > 0,
        of_target(overrides, events.drop_last(), target, image),
    ensures
        of_target(overrides, events, target, image),
{
    let init = events.drop_last();
    assert forall|i: int| 0 <= i < init.len() implies init[i] == events[i] by {}
    assert(named(events, image));
    if found_there(overrides, init, target, image) {
        lemma_happened_before(
            overrides,
            events,
            search_replied((target, Ok(Some(image.id)))),
        );
        lemma_happened_before(
            overrides,
            events,
            public_answered(target, image.id, image.public->Some_0),
        );
        lemma_happened_before(
            overrides,
            events,
            permissions_answered(target, image.id, image.launch_permissions->Some_0),
        );
    } else {
        lemma_happened_before(overrides, events, copy_replied((target, Ok(Some(image.id)))));
    }
}

/// With an image recorded that has its origin, all have.
proof fn lemma_placed_has_origin(
    overrides: Seq<Seq<char>>,
    events: Seq<EventView>,
    plan: PlanView,
    whose: spec_fn(RegionRoleView) -> Seq<char>,
    amis: AmisView,
    region: Seq<char>,
    account_id: Seq<char>,
    image: ImageView,
)
    requires
        all_have_origin(overrides, events, plan, whose, amis),
        has_origin(overrides, events, plan, whose, region, account_id, image),
    ensures
        all_have_origin(
            overrides,
            events,
            plan,
            whose,
            placed(amis, region, account_id, image),
        ),
{
    let after = placed(amis, region, account_id, image);
    assert forall|r: Seq<char>, a: Seq<char>|
        #![trigger has_image(after, r, a)]
        has_image(after, r, a) implies has_origin(
        overrides,
        events,
        plan,
        whose,
        r,
        a,
        after[r][a],
    ) by {
        law_placed_image_is_found(amis, region, account_id, image, r, a);
    }
}

/// Copies have their origin in their replies.
proof fn lemma_copies_have_origin(
    overrides: Seq<Seq<char>>,
    events: Seq<EventView>,
    plan: PlanView,
    whose: spec_fn(RegionRoleView) -> Seq<char>,
    amis: AmisView,
    name: Seq<char>,
    accounts: Map<RegionRoleView, Seq<char>>,
    replies: Seq<CopyReplyView>,
)
    requires
        all_have_origin(overrides, events, plan, whose, amis),
        amispec_rendered(events) matches Some(amispec) && amispec.name == name,
        forall|i: int|
            0 <= i < replies.len() ==> {
                &&& plan.targets.contains((#[trigger] replies[i]).0)
                &&& accounts[replies[i].0] == whose(replies[i].0)
                &&& happened(overrides, events, copy_replied(replies[i]))
            },
    ensures
        all_have_origin(
            overrides,
            events,
            plan,
            whose,
            with_copies(amis, name, accounts, replies),
        ),
    decreases replies.len(),
{
    if replies.len() > 0 {
        let init = replies.drop_last();
        let last = replies[replies.len() - 1];
        assert forall|i: int| 0 <= i < init.len() implies {
            &&& plan.targets.contains((#[trigger] init[i]).0)
            &&& accounts[init[i].0] == whose(init[i].0)
            &&& happened(overrides, events, copy_replied(init[i]))
        } by {
            assert(init[i] == replies[i]);
        }
        lemma_copies_have_origin(overrides, events, plan, whose, amis, name, accounts, init);
        if gave_id(last) {
            let id = last.1->Ok_0->Some_0;
            let image = copied_image(name, id);
            assert(last == (last.0, Ok::<Option<Seq<char>>, Option<Seq<char>>>(Some(id))));
            assert(copied_there(overrides, events, last.0, image));
            assert(plan.targets.contains(last.0));
            assert(has_origin(
                overrides,
                events,
                plan,
                whose,
                last.0.region,
                accounts[last.0],
                image,
            ));
            lemma_placed_has_origin(
                overrides,
                events,
                plan,
                whose,
                with_copies(amis, name, accounts, init),
                last.0.region,
                accounts[last.0],
                image,
            );
        }
    }
}

/// A survey leads to a stage that knows where its images come from.
proof fn lemma_surveyed_traced(
    overrides: Seq<Seq<char>>,
    events: Seq<EventView>,
    whose: spec_fn(RegionRoleView) -> Seq<char>,
    survey: SurveyView,
)
    requires
        survey_traced(overrides, events, whose, survey),
        plan_made(overrides, events, plan_of(survey.rollout)),
    ensures
        traced(overrides, events, whose, surveyed(survey)),
    decreases survey.pending.len(),
{
    if survey.pending.len() > 0 {
        let (target, reply) = survey.pending[0];
        let rest = SurveyView { pending: survey.pending.drop_first(), ..survey };
        assert forall|i: int| 0 <= i < rest.pending.len() implies happened(
            overrides,
            events,
            search_replied(#[trigger] rest.pending[i]),
        ) by {
            assert(rest.pending[i] == survey.pending[i + 1]);
        }
        assert(happened(overrides, events, search_replied(survey.pending[0])));
        if reply matches Ok(None) {
            lemma_surveyed_traced(
                overrides,
                events,
                whose,
                SurveyView { copies: survey.copies.push(target), ..rest },
            );
        }
    }
}

/// What a survey knows does not change as more answers come.
proof fn lemma_survey_stays_traced(
    overrides: Seq<Seq<char>>,
    events: Seq<EventView>,
    whose: spec_fn(RegionRoleView) -> Seq<char>,
    survey: SurveyView,
)
    requires
        events.len() > 0,
        survey_traced(overrides, events.drop_last(), whose, survey),
    ensures
        survey_traced(overrides, events, whose, survey),
{
    lemma_origin_stays(overrides, events, plan_of(survey.rollout), whose, survey.rollout.amis);
    assert forall|i: int| 0 <= i < survey.pending.len() implies happened(
        overrides,
        events,
        search_replied(#[trigger] survey.pending[i]),
    ) by {
        lemma_happened_before(overrides, events, search_replied(survey.pending[i]));
    }
}

/// The plan does not change as more answers come.
proof fn lemma_plan_stays(overrides: Seq<Seq<char>>, events: Seq<EventView>, plan: PlanView)
    requires
        events.len() > 1,
        plan_made(overrides, events.drop_last(), plan),
    ensures
        plan_made(overrides, events, plan),
{
    assert(events.drop_last()[0] == events[0]);
}

/// The account behind the source is resolved.
proof fn lemma_account_keeps_trace(
    overrides: Seq<Seq<char>>,
    events: Seq<EventView>,
    whose: spec_fn(RegionRoleView) -> Seq<char>,
)
    requires
        events.len() > 0,
        stage_after(overrides, events.drop_last()) is AccountNeeded,
        on_course(overrides, events.drop_last(), stage_after(overrides, events.drop_last())),
        recorded(events.drop_last(), stage_after(overrides, events.drop_last())),
        fits(stage_after(overrides, events.drop_last()), events.last()),
        account_agrees(stage_after(overrides, events.drop_last()), events.last(), whose),
    ensures
        traced(overrides, events, whose, stage_after(overrides, events)),
{
    let init = events.drop_last();
    let stage = stage_after(overrides, init);
    assert forall|i: int| 0 <= i < init.len() implies init[i] == events[i] by {}
    if let EventView::AccountResolved(Ok(Some(account_id))) = events.last() {
        let job = stage->AccountNeeded_job;
        let plan = PlanView { source: job.source, targets: job.targets };
        let image = source_image(init)->Some_0;
        lemma_plan_stays(overrides, events, plan);
        assert(source_image(events) == Some(image));
        assert(has_origin(
            overrides,
            events,
            plan,
            whose,
            job.source.region,
            account_id,
            image,
        ));
        assert(all_have_origin(overrides, events, plan, whose, Map::empty()));
        lemma_placed_has_origin(
            overrides,
            events,
            plan,
            whose,
            Map::empty(),
            job.source.region,
            account_id,
            image,
        );
    }
}

/// The launch permissions of a target's image are listed.
proof fn lemma_target_permissions_keep_trace(
    overrides: Seq<Seq<char>>,
    events: Seq<EventView>,
    whose: spec_fn(RegionRoleView) -> Seq<char>,
    survey: SurveyView,
    target: RegionRoleView,
    image_id: Seq<char>,
    public: bool,
    launch_permissions: Seq<LaunchPermissionView>,
)
    requires
        events.len() > 1,
        stage_after(overrides, events.drop_last()) == (StageView::TargetPermissionsNeeded {
            survey,
            target,
            image_id,
            public,
        }),
        events.last() == EventView::PermissionsListed(Ok(launch_permissions)),
        traced(overrides, events.drop_last(), whose, stage_after(overrides, events.drop_last())),
        plan_made(overrides, events.drop_last(), plan_of(survey.rollout)),
        survey.rollout.job.targets.contains(target),
        survey.accounts.contains_key(target),
        amispec_rendered(events) matches Some(amispec) && amispec.name == survey.rollout.job.name,
    ensures
        traced(
            overrides,
            events,
            whose,
            surveyed(with_found(survey, target, image_id, public, launch_permissions)),
        ),
{
    let rollout = survey.rollout;
    let plan = plan_of(rollout);
    let image = ImageView {
        id: image_id,
        name: rollout.job.name,
        public: Some(public),
        launch_permissions: Some(launch_permissions),
    };
    lemma_plan_stays(overrides, events, plan);
    lemma_survey_stays_traced(overrides, events, whose, survey);
    lemma_happened_before(overrides, events, search_replied((target, Ok(Some(image_id)))));
    lemma_happened_before(overrides, events, public_answered(target, image_id, public));
    lemma_happened_now(
        overrides,
        events,
        permissions_answered(target, image_id, launch_permissions),
    );
    assert(found_there(overrides, events, target, image));
    assert(plan.targets.contains(target));
    assert(has_origin(
        overrides,
        events,
        plan,
        whose,
        target.region,
        survey.accounts[target],
        image,
    ));
    lemma_placed_has_origin(
        overrides,
        events,
        plan,
        whose,
        rollout.amis,
        target.region,
        survey.accounts[target],
        image,
    );
    let found = with_found(survey, target, image_id, public, launch_permissions);
    assert(survey_traced(overrides, events, whose, found));
    lemma_surveyed_traced(overrides, events, whose, found);
}

/// The rollout of a stage that is on course follows the plan.
proof fn lemma_rollout_planned(
    overrides: Seq<Seq<char>>,
    events: Seq<EventView>,
    stage: StageView,
    rollout: RolloutView,
)
    requires
        on_course(overrides, events, stage),
        rollout_of(stage) == Some(rollout),
    ensures
        plan_made(overrides, events, plan_of(rollout)),
{
}

/// What is known of a stage with a rollout.
pub proof fn lemma_rollout_known(
    overrides: Seq<Seq<char>>,
    events: Seq<EventView>,
    rollout: RolloutView,
)
    requires
        legal(overrides, events),
        rollout_of(stage_after(overrides, events)) == Some(rollout),
    ensures
        events.len() > 3,
        plan_made(overrides, events, plan_of(rollout)),
        amispec_rendered(events) matches Some(amispec) && amispec.name == rollout.job.name,
{
    let stage = stage_after(overrides, events);
    assert(plan_made(overrides, events, plan_of(rollout))) by {
        lemma_on_course(overrides, events);
        lemma_rollout_planned(overrides, events, stage, rollout);
    }
    lemma_recorded(overrides, events);
    assert(rollout_recorded(events, rollout));
}

/// What is known of a target whose image is looked at.
proof fn lemma_target_known(
    overrides: Seq<Seq<char>>,
    events: Seq<EventView>,
    survey: SurveyView,
    target: RegionRoleView,
    image_id: Seq<char>,
    public: bool,
)
    requires
        legal(overrides, events),
        stage_after(overrides, events) == (StageView::TargetPermissionsNeeded {
            survey,
            target,
            image_id,
            public,
        }),
    ensures
        survey.rollout.job.targets.contains(target),
        survey.accounts.contains_key(target),
{
    lemma_on_course(overrides, events);
    law_well_formed_throughout(overrides, events);
}

/// What is known of the targets that are copied to.
proof fn lemma_copies_known(
    overrides: Seq<Seq<char>>,
    events: Seq<EventView>,
    rollout: RolloutView,
    accounts: Map<RegionRoleView, Seq<char>>,
    copies: Seq<RegionRoleView>,
)
    requires
        legal(overrides, events),
        stage_after(overrides, events) == (StageView::CopiesNeeded { rollout, accounts, copies }),
    ensures
        forall|t: RegionRoleView| #[trigger]
            copies.contains(t) ==> rollout.job.targets.contains(t) && accounts.contains_key(t),
{
    law_copies_go_where_the_image_is_missing(overrides, events, rollout, accounts, copies);
    law_well_formed_throughout(overrides, events);
}

/// The replies about the targets arrive.
proof fn lemma_searches_keep_trace(
    overrides: Seq<Seq<char>>,
    events: Seq<EventView>,
    whose: spec_fn(RegionRoleView) -> Seq<char>,
    rollout: RolloutView,
    accounts: Map<RegionRoleView, Seq<char>>,
    replies: Seq<SearchReplyView>,
)
    requires
        events.len() > 1,
        stage_after(overrides, events.drop_last()) == (StageView::ImagesSought {
            rollout,
            accounts,
        }),
        events.last() == EventView::ImagesSearched(replies),
        traced(overrides, events.drop_last(), whose, stage_after(overrides, events.drop_last())),
        plan_made(overrides, events.drop_last(), plan_of(rollout)),
    ensures
        traced(overrides, events, whose, after_searches(rollout, accounts, replies)),
{
    let survey = SurveyView { rollout, accounts, pending: replies, copies: Seq::empty() };
    lemma_plan_stays(overrides, events, plan_of(rollout));
    lemma_origin_stays(overrides, events, plan_of(rollout), whose, rollout.amis);
    assert forall|i: int| 0 <= i < survey.pending.len() implies happened(
        overrides,
        events,
        search_replied(#[trigger] survey.pending[i]),
    ) by {
        assert(replies.contains(replies[i]));
        lemma_happened_now(overrides, events, search_replied(survey.pending[i]));
    }
    lemma_surveyed_traced(overrides, events, whose, survey);
}

/// The replies to the copy requests arrive.
proof fn lemma_copies_keep_trace(
    overrides: Seq<Seq<char>>,
    events: Seq<EventView>,
    whose: spec_fn(RegionRoleView) -> Seq<char>,
    rollout: RolloutView,
    accounts: Map<RegionRoleView, Seq<char>>,
    copies: Seq<RegionRoleView>,
    replies: Seq<CopyReplyView>,
)
    requires
        events.len() > 1,
        stage_after(overrides, events.drop_last()) == (StageView::CopiesNeeded {
            rollout,
            accounts,
            copies,
        }),
        events.last() == EventView::ImagesCopied(replies),
        traced(overrides, events.drop_last(), whose, stage_after(overrides, events.drop_last())),
        plan_made(overrides, events.drop_last(), plan_of(rollout)),
        amispec_rendered(events) matches Some(amispec) && amispec.name == rollout.job.name,
        answers(copies, replies),
        forall|t: RegionRoleView| #[trigger]
            copies.contains(t) ==> rollout.job.targets.contains(t) && accounts.contains_key(t),
    ensures
        traced(overrides, events, whose, after_copies(rollout, accounts, replies)),
{
    let plan = plan_of(rollout);
    lemma_plan_stays(overrides, events, plan);
    lemma_origin_stays(overrides, events, plan, whose, rollout.amis);
    assert forall|i: int| 0 <= i < replies.len() implies {
        &&& plan.targets.contains((#[trigger] replies[i]).0)
        &&& accounts[replies[i].0] == whose(replies[i].0)
        &&& happened(overrides, events, copy_replied(replies[i]))
    } by {
        assert(copies.contains(replies[i].0));
        assert(replies.contains(replies[i]));
        lemma_happened_now(overrides, events, copy_replied(replies[i]));
    }
    lemma_copies_have_origin(
        overrides,
        events,
        plan,
        whose,
        rollout.amis,
        rollout.job.name,
        accounts,
        replies,
    );
}

/// An answer leads from a stage that knows where its images come from to one that does.
proof fn lemma_answer_keeps_trace(
    overrides: Seq<Seq<char>>,
    events: Seq<EventView>,
    whose: spec_fn(RegionRoleView) -> Seq<char>,
)
    requires
        legal(overrides, events),
        events.len() > 0,
        traced(overrides, events.drop_last(), whose, stage_after(overrides, events.drop_last())),
        account_agrees(stage_after(overrides, events.drop_last()), events.last(), whose),
    ensures
        traced(overrides, events, whose, stage_after(overrides, events)),
{
    let init = events.drop_last();
    let stage = stage_after(overrides, init);
    lemma_legal_prefix(overrides, events);
    if rollout_of(stage) is Some {
        let rollout = rollout_of(stage)->Some_0;
        lemma_rollout_known(overrides, init, rollout);
        assert(amispec_rendered(events) == amispec_rendered(init)) by {
            assert(events[1] == init[1]);
        }
        lemma_origin_stays_if_traced(overrides, events, whose, rollout);
    }
    match (stage, events.last()) {
        (StageView::AccountNeeded { .. }, _) => {
            lemma_on_course(overrides, init);
            lemma_recorded(overrides, init);
            lemma_account_keeps_trace(overrides, events, whose);
        },
        (StageView::ImagesSought { rollout, accounts }, EventView::ImagesSearched(replies)) => {
            lemma_searches_keep_trace(overrides, events, whose, rollout, accounts, replies);
        },
        (
            StageView::TargetPublicNeeded { survey, target, image_id },
            EventView::PublicChecked(Ok(public)),
        ) => {
            lemma_survey_stays_traced(overrides, events, whose, survey);
            lemma_happened_before(overrides, events, search_replied((target, Ok(Some(image_id)))));
            lemma_happened_now(overrides, events, public_answered(target, image_id, public));
        },
        (
            StageView::TargetPermissionsNeeded { survey, target, image_id, public },
            EventView::PermissionsListed(Ok(launch_permissions)),
        ) => {
            lemma_target_known(overrides, init, survey, target, image_id, public);
            lemma_target_permissions_keep_trace(
                overrides,
                events,
                whose,
                survey,
                target,
                image_id,
                public,
                launch_permissions,
            );
        },
        (
            StageView::CopiesNeeded { rollout, accounts, copies },
            EventView::ImagesCopied(replies),
        ) => {
            lemma_copies_known(overrides, init, rollout, accounts, copies);
            lemma_copies_keep_trace(overrides, events, whose, rollout, accounts, copies, replies);
        },
        _ => {},
    }
}

/// What is known of the images of a rollout does not change as more answers come.
proof fn lemma_origin_stays_if_traced(
    overrides: Seq<Seq<char>>,
    events: Seq<EventView>,
    whose: spec_fn(RegionRoleView) -> Seq<char>,
    rollout: RolloutView,
)
    requires
        events.len() > 0,
        rollout_traced(overrides, events.drop_last(), whose, rollout),
    ensures
        rollout_traced(overrides, events, whose, rollout),
{
    lemma_origin_stays(overrides, events, plan_of(rollout), whose, rollout.amis);
}

/// A shorter course agrees on the accounts, and so does the last answer.
proof fn lemma_accounts_prefix(
    overrides: Seq<Seq<char>>,
    events: Seq<EventView>,
    whose: spec_fn(RegionRoleView) -> Seq<char>,
)
    requires
        accounts_are(overrides, events, whose),
        events.len() > 0,
    ensures
        accounts_are(overrides, events.drop_last(), whose),
        account_agrees(stage_after(overrides, events.drop_last()), events.last(), whose),
{
    let init = events.drop_last();
    assert forall|i: int| 0 <= i < init.len() implies account_agrees(
        stage_after(overrides, init.take(i)),
        #[trigger] init[i],
        whose,
    ) by {
        assert(init.take(i) =~= events.take(i));
        assert(account_agrees(stage_after(overrides, events.take(i)), events[i], whose));
    }
    let n = events.len() - 1;
    assert(events.take(n) =~= init);
    assert(account_agrees(stage_after(overrides, events.take(n)), events[n], whose));
}

/// Every stage that a publication reaches knows where its images come from.
proof fn lemma_traced(
    overrides: Seq<Seq<char>>,
    events: Seq<EventView>,
    whose: spec_fn(RegionRoleView) -> Seq<char>,
)
    requires
        legal(overrides, events),
        accounts_are(overrides, events, whose),
    ensures
        traced(overrides, events, whose, stage_after(overrides, events)),
    decreases events.len(),
{
    if events.len() > 0 {
        lemma_legal_prefix(overrides, events);
        lemma_accounts_prefix(overrides, events, whose);
        lemma_traced(overrides, events.drop_last(), whose);
        lemma_answer_keeps_trace(overrides, events, whose);
    }
}

// ---------------------------------------------------------------------------------------------
// What a successful publication leaves.
// ---------------------------------------------------------------------------------------------

/// Whether a place is that of the source or of a target.
pub open spec fn is_planned_place(
    plan: PlanView,
    whose: spec_fn(RegionRoleView) -> Seq<char>,
    region: Seq<char>,
    account_id: Seq<char>,
) -> bool {
    ||| (region == plan.source.region && account_id == whose(plan.source))
    ||| exists|t: RegionRoleView| #[trigger]
        plan.targets.contains(t) && t.region == region && whose(t) == account_id
}

/// The account of the source is the one that was resolved.
proof fn lemma_source_account(
    overrides: Seq<Seq<char>>,
    events: Seq<EventView>,
    whose: spec_fn(RegionRoleView) -> Seq<char>,
    job: JobView,
    account_id: Seq<char>,
)
    requires
        accounts_are(overrides, events, whose),
        happened(overrides, events, source_resolved(job, account_id)),
    ensures
        account_id == whose(job.source),
{
    reveal(happened);
    let kind = source_resolved(job, account_id);
    let i = choose|i: int|
        0 <= i < events.len() && kind(stage_after(overrides, events.take(i)), #[trigger] events[i]);
    assert(account_agrees(stage_after(overrides, events.take(i)), events[i], whose));
}

/// The accounts of the targets are those that were resolved.
proof fn lemma_target_accounts(
    overrides: Seq<Seq<char>>,
    events: Seq<EventView>,
    whose: spec_fn(RegionRoleView) -> Seq<char>,
    job: JobView,
    accounts: Map<RegionRoleView, Seq<char>>,
)
    requires
        legal(overrides, events),
        accounts_are(overrides, events, whose),
        happened(overrides, events, targets_resolved(job, accounts)),
    ensures
        forall|t: RegionRoleView| #[trigger] job.targets.contains(t) ==> accounts[t] == whose(t),
{
    reveal(happened);
    let kind = targets_resolved(job, accounts);
    let i = choose|i: int|
        0 <= i < events.len() && kind(stage_after(overrides, events.take(i)), #[trigger] events[i]);
    let stage = stage_after(overrides, events.take(i));
    let replies = events[i]->AccountsResolved_0;
    assert(account_agrees(stage, events[i], whose));
    assert(fits(stage, events[i]));
    assert(answers(job.targets, replies));
    lemma_account_ids_domain(replies);
    assert forall|t: RegionRoleView| #[trigger] job.targets.contains(t) implies accounts[t]
        == whose(t) by {
        assert(accounts.contains_key(t));
    }
}

/// Images that cover the source and the targets are at their places.
proof fn lemma_planned_places(
    amis: AmisView,
    job: JobView,
    account_id: Seq<char>,
    accounts: Map<RegionRoleView, Seq<char>>,
    plan: PlanView,
    whose: spec_fn(RegionRoleView) -> Seq<char>,
    region: Seq<char>,
    account: Seq<char>,
)
    requires
        covers(amis, job, account_id, accounts),
        plan == (PlanView { source: job.source, targets: job.targets }),
        account_id == whose(job.source),
        forall|t: RegionRoleView| #[trigger] job.targets.contains(t) ==> accounts[t] == whose(t),
    ensures
        has_image(amis, region, account) <==> is_planned_place(plan, whose, region, account),
{
    if has_image(amis, region, account) {
        assert(is_place(job, account_id, accounts, region, account));
        if !(region == job.source.region && account == account_id) {
            let t = choose|t: RegionRoleView| #[trigger]
                job.targets.contains(t) && t.region == region && accounts[t] == account;
            assert(plan.targets.contains(t));
        }
    }
    if is_planned_place(plan, whose, region, account) {
        if !(region == plan.source.region && account == whose(plan.source)) {
            let t = choose|t: RegionRoleView| #[trigger]
                plan.targets.contains(t) && t.region == region && whose(t) == account;
            assert(job.targets.contains(t));
        }
    }
}

/// A successful publication leaves images exactly at the places of the source and the targets,
/// and what is recorded of each is what was answered: of the image at the source, and of one found
/// at a target, its ID, whether it is public and who may launch it, and of a new one its ID, and
/// that it is private.
pub proof fn law_images_are_as_answered(
    overrides: Seq<Seq<char>>,
    events: Seq<EventView>,
    amis: AmisView,
    plan: PlanView,
    whose: spec_fn(RegionRoleView) -> Seq<char>,
)
    requires
        legal(overrides, events),
        stage_after(overrides, events) matches StageView::Finished { outcome, .. } && outcome
            == Ok::<AmisView, AmiErrorView>(amis),
        plan_made(overrides, events, plan),
        accounts_are(overrides, events, whose),
    ensures
        all_have_origin(overrides, events, plan, whose, amis),
        forall|region: Seq<char>, account_id: Seq<char>|
            #![trigger has_image(amis, region, account_id)]
            has_image(amis, region, account_id) <==> is_planned_place(
                plan,
                whose,
                region,
                account_id,
            ),
{
    assert(all_have_origin(overrides, events, plan, whose, amis)) by {
        lemma_traced(overrides, events, whose);
    }
    law_success_covers_every_target(overrides, events, amis);
    let (job, account_id, accounts) = choose|
        job: JobView,
        account_id: Seq<char>,
        accounts: Map<RegionRoleView, Seq<char>>,
    | #[trigger]
        published(overrides, events, amis, job, account_id, accounts);
    assert(plan == (PlanView { source: job.source, targets: job.targets }));
    lemma_source_account(overrides, events, whose, job, account_id);
    if job.targets.len() > 0 {
        lemma_target_accounts(overrides, events, whose, job, accounts);
    }
    assert forall|r: Seq<char>, a: Seq<char>|
        #![trigger has_image(amis, r, a)]
        has_image(amis, r, a) <==> is_planned_place(plan, whose, r, a) by {
        lemma_planned_places(amis, job, account_id, accounts, plan, whose, r, a);
    }
}

/// What a stage has resolved: the source with its account, and the accounts of the targets.
pub open spec fn resolved(stage: StageView) -> Option<
    (RegionRoleView, Seq<char>, Map<RegionRoleView, Seq<char>>),
> {
    match rollout_of(stage) {
        None => None,
        Some(rollout) => Some(
            (
                rollout.job.source,
                rollout.account_id,
                match stage {
                    StageView::SnapshotGrantNeeded { accounts, .. } => accounts,
                    StageView::ImageGrantNeeded { accounts, .. } => accounts,
                    StageView::ImagesSought { accounts, .. } => accounts,
                    StageView::TargetPublicNeeded { survey, .. } => survey.accounts,
                    StageView::TargetPermissionsNeeded { survey, .. } => survey.accounts,
                    StageView::CopiesNeeded { accounts, .. } => accounts,
                    _ => Map::empty(),
                },
            ),
        ),
    }
}

/// Whether a function gives what has been resolved.
pub open spec fn gives(
    whose: spec_fn(RegionRoleView) -> Seq<char>,
    known: (RegionRoleView, Seq<char>, Map<RegionRoleView, Seq<char>>),
) -> bool {
    whose(known.0) == known.1 && accounts_by(known.2, whose)
}

/// Whether a stage leaves a function that gives its accounts.
pub open spec fn leaves_accounts(
    overrides: Seq<Seq<char>>,
    events: Seq<EventView>,
    stage: StageView,
) -> bool {
    if stage is Finished {
        exists|whose: spec_fn(RegionRoleView) -> Seq<char>| #[trigger]
            accounts_are(overrides, events, whose)
    } else {
        match resolved(stage) {
            None => forall|whose: spec_fn(RegionRoleView) -> Seq<char>| #[trigger]
                accounts_are(overrides, events, whose),
            Some(known) => {
                &&& !known.2.contains_key(known.0)
                &&& forall|whose: spec_fn(RegionRoleView) -> Seq<char>|
                    gives(whose, known) ==> #[trigger] accounts_are(overrides, events, whose)
            },
        }
    }
}

/// A survey keeps what has been resolved, or ends.
proof fn lemma_surveyed_keeps_accounts(survey: SurveyView)
    ensures
        surveyed(survey) is Finished || resolved(surveyed(survey)) == Some(
            (survey.rollout.job.source, survey.rollout.account_id, survey.accounts),
        ),
    decreases survey.pending.len(),
{
    if survey.pending.len() > 0 {
        let (target, reply) = survey.pending[0];
        let rest = SurveyView { pending: survey.pending.drop_first(), ..survey };
        if reply matches Ok(None) {
            lemma_surveyed_keeps_accounts(
                SurveyView { copies: survey.copies.push(target), ..rest },
            );
        }
    }
}

/// Once resolved, accounts are kept to the end.
proof fn lemma_accounts_are_kept(stage: StageView, event: EventView)
    requires
        fits(stage, event),
        stage !is AccountNeeded,
        stage !is AccountsNeeded,
    ensures
        next(stage, event) is Finished || resolved(next(stage, event)) == resolved(stage),
{
    match (stage, event) {
        (StageView::ImagesSought { rollout, accounts }, EventView::ImagesSearched(replies)) => {
            lemma_surveyed_keeps_accounts(
                SurveyView { rollout, accounts, pending: replies, copies: Seq::empty() },
            );
        },
        (
            StageView::TargetPermissionsNeeded { survey, target, image_id, public },
            EventView::PermissionsListed(Ok(launch_permissions)),
        ) => {
            lemma_surveyed_keeps_accounts(
                with_found(survey, target, image_id, public, launch_permissions),
            );
        },
        _ => {},
    }
}

/// A course agrees on the accounts where its beginning and its last answer do.
proof fn lemma_accounts_extend(
    overrides: Seq<Seq<char>>,
    events: Seq<EventView>,
    whose: spec_fn(RegionRoleView) -> Seq<char>,
)
    requires
        events.len() > 0,
        accounts_are(overrides, events.drop_last(), whose),
        account_agrees(stage_after(overrides, events.drop_last()), events.last(), whose),
    ensures
        accounts_are(overrides, events, whose),
{
    let init = events.drop_last();
    assert forall|i: int| 0 <= i < events.len() implies account_agrees(
        stage_after(overrides, events.take(i)),
        #[trigger] events[i],
        whose,
    ) by {
        if i < init.len() {
            assert(init.take(i) =~= events.take(i));
            assert(account_agrees(stage_after(overrides, init.take(i)), init[i], whose));
        } else {
            assert(events.take(i) =~= init);
        }
    }
}

/// The source is no target of the stage that resolves the accounts of the targets.
proof fn lemma_source_is_no_target(
    overrides: Seq<Seq<char>>,
    events: Seq<EventView>,
    rollout: RolloutView,
)
    requires
        legal(overrides, events),
        rollout_of(stage_after(overrides, events)) == Some(rollout),
    ensures
        !rollout.job.targets.contains(rollout.job.source),
{
    lemma_rollout_known(overrides, events, rollout);
    law_plan_reaches_every_pair(
        overrides,
        config_loaded(events)->Some_0,
        plan_of(rollout),
        rollout.job.source,
    );
}

/// What has been resolved is given by some function.
proof fn lemma_some_function_gives(
    known: (RegionRoleView, Seq<char>, Map<RegionRoleView, Seq<char>>),
) -> (whose: spec_fn(RegionRoleView) -> Seq<char>)
    requires
        !known.2.contains_key(known.0),
    ensures
        gives(whose, known),
{
    let whose = |p: RegionRoleView|
        if known.2.contains_key(p) {
            known.2[p]
        } else {
            known.1
        };
    assert(gives(whose, known));
    whose
}

/// The accounts of the targets are resolved.
proof fn lemma_accounts_resolved(
    overrides: Seq<Seq<char>>,
    events: Seq<EventView>,
    rollout: RolloutView,
    replies: Seq<SearchReplyView>,
)
    requires
        events.len() > 0,
        stage_after(overrides, events.drop_last()) == (StageView::AccountsNeeded { rollout }),
        events.last() == EventView::AccountsResolved(replies),
        answers(rollout.job.targets, replies),
        !rollout.job.targets.contains(rollout.job.source),
        leaves_accounts(
            overrides,
            events.drop_last(),
            StageView::AccountsNeeded { rollout },
        ),
    ensures
        leaves_accounts(overrides, events, after_accounts(rollout, replies)),
{
    let init = events.drop_last();
    let before = (
        rollout.job.source,
        rollout.account_id,
        Map::<RegionRoleView, Seq<char>>::empty(),
    );
    match account_ids_in(replies) {
        Err(_) => {
            let whose = lemma_some_function_gives(before);
            assert(accounts_are(overrides, init, whose));
            lemma_accounts_extend(overrides, events, whose);
        },
        Ok(accounts) => {
            let known = (rollout.job.source, rollout.account_id, accounts);
            lemma_account_ids_domain(replies);
            if accounts.contains_key(rollout.job.source) {
                let i = choose|i: int|
                    0 <= i < replies.len() && (#[trigger] replies[i]).0 == rollout.job.source;
                assert(rollout.job.targets.contains(replies[i].0));
            }
            assert forall|whose: spec_fn(RegionRoleView) -> Seq<char>|
                gives(whose, known) implies #[trigger] accounts_are(overrides, events, whose) by {
                assert(gives(whose, before));
                assert(accounts_are(overrides, init, whose));
                lemma_accounts_extend(overrides, events, whose);
            }
        },
    }
}

/// The account of the source is resolved.
proof fn lemma_account_resolved(overrides: Seq<Seq<char>>, events: Seq<EventView>)
    requires
        events.len() > 0,
        stage_after(overrides, events.drop_last()) is AccountNeeded,
        fits(stage_after(overrides, events.drop_last()), events.last()),
        leaves_accounts(
            overrides,
            events.drop_last(),
            stage_after(overrides, events.drop_last()),
        ),
    ensures
        leaves_accounts(overrides, events, stage_after(overrides, events)),
{
    let init = events.drop_last();
    let job = stage_after(overrides, init)->AccountNeeded_job;
    let reply = events.last()->AccountResolved_0;
    if let Ok(Some(account_id)) = reply {
        let known = (job.source, account_id, Map::<RegionRoleView, Seq<char>>::empty());
        assert forall|whose: spec_fn(RegionRoleView) -> Seq<char>|
            gives(whose, known) implies #[trigger] accounts_are(overrides, events, whose) by {
            assert(accounts_are(overrides, init, whose));
            lemma_accounts_extend(overrides, events, whose);
        }
        let whose = lemma_some_function_gives(known);
        assert(accounts_are(overrides, events, whose));
    } else {
        let whose = |p: RegionRoleView| Seq::<char>::empty();
        assert(accounts_are(overrides, init, whose));
        lemma_accounts_extend(overrides, events, whose);
    }
}

/// Every stage that a publication reaches leaves a function that gives its accounts.
proof fn lemma_leaves_accounts(overrides: Seq<Seq<char>>, events: Seq<EventView>)
    requires
        legal(overrides, events),
    ensures
        leaves_accounts(overrides, events, stage_after(overrides, events)),
    decreases events.len(),
{
    if events.len() > 0 {
        let init = events.drop_last();
        let stage = stage_after(overrides, init);
        let event = events.last();
        lemma_legal_prefix(overrides, events);
        lemma_leaves_accounts(overrides, init);
        if let StageView::AccountsNeeded { rollout } = stage {
            lemma_source_is_no_target(overrides, init, rollout);
            lemma_accounts_resolved(overrides, events, rollout, event->AccountsResolved_0);
        } else if stage is AccountNeeded {
            lemma_account_resolved(overrides, events);
        } else {
            lemma_accounts_are_kept(stage, event);
            assert forall|whose: spec_fn(RegionRoleView) -> Seq<char>|
                accounts_are(overrides, init, whose) implies #[trigger] accounts_are(
                overrides,
                events,
                whose,
            ) by {
                lemma_accounts_extend(overrides, events, whose);
            }
            let whose = match resolved(stage) {
                Some(known) => lemma_some_function_gives(known),
                None => |p: RegionRoleView| Seq::<char>::empty(),
            };
            assert(accounts_are(overrides, init, whose));
            assert(accounts_are(overrides, events, whose));
        }
    }
}

/// The accounts that a publication resolves are always those that some function of region and role
/// gives.
pub proof fn law_accounts_are_a_function(overrides: Seq<Seq<char>>, events: Seq<EventView>)
    requires
        legal(overrides, events),
    ensures
        exists|whose: spec_fn(RegionRoleView) -> Seq<char>| #[trigger]
            accounts_are(overrides, events, whose),
{
    let stage = stage_after(overrides, events);
    lemma_leaves_accounts(overrides, events);
    if stage !is Finished {
        let whose = match resolved(stage) {
            Some(known) => lemma_some_function_gives(known),
            None => |p: RegionRoleView| Seq::<char>::empty(),
        };
        assert(accounts_are(overrides, events, whose));
    }
}

/// Whether no two of the source and the targets have one place.
pub open spec fn apart(plan: PlanView, whose: spec_fn(RegionRoleView) -> Seq<char>) -> bool {
    &&& forall|t: RegionRoleView| #[trigger]
        plan.targets.contains(t) ==> !(t.region == plan.source.region && whose(t) == whose(
            plan.source,
        ))
    &&& forall|t: RegionRoleView, u: RegionRoleView|
        #![trigger plan.targets.contains(t), plan.targets.contains(u)]
        plan.targets.contains(t) && plan.targets.contains(u) && t.region == u.region && whose(t)
            == whose(u) ==> t == u
}

/// Where no two of the source and the targets have one place, a successful publication leaves at
/// the place of the source what was answered of the image there, and at the place of each target
/// what was answered of the image of that target.
pub proof fn law_each_place_has_its_own_image(
    overrides: Seq<Seq<char>>,
    events: Seq<EventView>,
    amis: AmisView,
    plan: PlanView,
    whose: spec_fn(RegionRoleView) -> Seq<char>,
)
    requires
        legal(overrides, events),
        stage_after(overrides, events) matches StageView::Finished { outcome, .. } && outcome
            == Ok::<AmisView, AmiErrorView>(amis),
        plan_made(overrides, events, plan),
        accounts_are(overrides, events, whose),
        apart(plan, whose),
    ensures
        has_image(amis, plan.source.region, whose(plan.source)),
        source_image(events) == Some(amis[plan.source.region][whose(plan.source)]),
        forall|t: RegionRoleView| #[trigger]
            plan.targets.contains(t) ==> has_image(amis, t.region, whose(t)) && of_target(
                overrides,
                events,
                t,
                amis[t.region][whose(t)],
            ),
{
    law_images_are_as_answered(overrides, events, amis, plan, whose);
    assert(has_image(amis, plan.source.region, whose(plan.source)));
    assert forall|t: RegionRoleView| #[trigger] plan.targets.contains(t) implies has_image(
        amis,
        t.region,
        whose(t),
    ) && of_target(overrides, events, t, amis[t.region][whose(t)]) by {
        assert(has_image(amis, t.region, whose(t)));
        let image = amis[t.region][whose(t)];
        assert(has_origin(overrides, events, plan, whose, t.region, whose(t), image));
        let u = choose|u: RegionRoleView| #[trigger]
            plan.targets.contains(u) && u.region == t.region && whose(u) == whose(t) && of_target(
                overrides,
                events,
                u,
                image,
            );
        assert(u == t);
    }
}

} // verus!
