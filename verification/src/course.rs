//! What holds of the course of every publication, from its start to its end.

use crate::error::AmiErrorView;
use crate::identity::{account_ids_in, grants_of};
use crate::image::{has_image, placed, ImageView, LaunchPermissionView};
use crate::laws::{
    copied_to, law_copies_add_their_places, law_placed_image_is_found,
    law_plan_reaches_every_pair,
};
use crate::model::{
    action_of, after_account, after_accounts, after_copies, after_image_grant, after_searches,
    after_snapshot_grant, after_target_permissions, after_wait, answers, fits, gave_id,
    lemma_next_well_formed, next, surveyed, well_formed, with_copies, with_found, AmisView,
};
use crate::stage::{
    ActionView, AmispecView, CopyReplyView, EventView, JobView, RegisteredIdsView, RolloutView,
    SearchReplyView, StageView, SurveyView,
};
use crate::target::{
    chosen_regions, empty_config, first_role, planned, roles_of, AwsConfigView, PlanView,
    RegionRoleView,
};
use vstd::prelude::*;

verus! {

/// The stage of a publication after a number of answers.
pub open spec fn stage_after(overrides: Seq<Seq<char>>, events: Seq<EventView>) -> StageView
    decreases events.len(),
{
    if events.len() == 0 {
        StageView::ConfigNeeded { overrides }
    } else {
        next(stage_after(overrides, events.drop_last()), events.last())
    }
}

/// Whether each of the answers fits what was asked for when it came.
pub open spec fn legal(overrides: Seq<Seq<char>>, events: Seq<EventView>) -> bool {
    forall|i: int|
        0 <= i < events.len() ==> fits(
            stage_after(overrides, events.take(i)),
            #[trigger] events[i],
        )
}

/// A shorter course of a legal publication is legal, and its last answer fits.
pub proof fn lemma_legal_prefix(overrides: Seq<Seq<char>>, events: Seq<EventView>)
    requires
        legal(overrides, events),
        events.len() > 0,
    ensures
        legal(overrides, events.drop_last()),
        fits(stage_after(overrides, events.drop_last()), events.last()),
{
    let init = events.drop_last();
    assert forall|i: int| 0 <= i < init.len() implies fits(
        stage_after(overrides, init.take(i)),
        #[trigger] init[i],
    ) by {
        assert(init.take(i) =~= events.take(i));
        assert(fits(stage_after(overrides, events.take(i)), events[i]));
    }
    assert(events.take(events.len() - 1) =~= init);
    assert(fits(stage_after(overrides, events.take(events.len() - 1)), events[events.len() - 1]));
}

/// Every stage that a publication reaches is well formed: once the accounts have been resolved,
/// that of each target is known.
pub proof fn law_well_formed_throughout(overrides: Seq<Seq<char>>, events: Seq<EventView>)
    requires
        legal(overrides, events),
    ensures
        well_formed(stage_after(overrides, events)),
    decreases events.len(),
{
    if events.len() > 0 {
        lemma_legal_prefix(overrides, events);
        law_well_formed_throughout(overrides, events.drop_last());
        lemma_next_well_formed(stage_after(overrides, events.drop_last()), events.last());
    }
}

/// How far a stage is from the end.
pub open spec fn stages_left(stage: StageView) -> nat {
    match stage {
        StageView::ConfigNeeded { .. } => 14,
        StageView::AmispecNeeded { .. } => 13,
        StageView::ImageSought { .. } => 12,
        StageView::SnapshotsNeeded { .. } => 11,
        StageView::PublicNeeded { .. } => 10,
        StageView::PermissionsNeeded { .. } => 9,
        StageView::RegistrationNeeded { .. } => 9,
        StageView::AccountNeeded { .. } => 8,
        StageView::AvailabilityNeeded { .. } => 7,
        StageView::AccountsNeeded { .. } => 6,
        StageView::SnapshotGrantNeeded { .. } => 5,
        StageView::ImageGrantNeeded { .. } => 4,
        StageView::ImagesSought { .. } => 3,
        StageView::TargetPublicNeeded { .. } => 2,
        StageView::TargetPermissionsNeeded { .. } => 2,
        StageView::CopiesNeeded { .. } => 1,
        StageView::Finished { .. } => 0,
    }
}

/// How many answers about the targets may still be needed.
pub open spec fn answers_left(stage: StageView) -> nat {
    match stage {
        StageView::TargetPublicNeeded { survey, .. } => 2 * survey.pending.len() + 1,
        StageView::TargetPermissionsNeeded { survey, .. } => 2 * survey.pending.len(),
        _ => 0,
    }
}

/// A survey leads on, and looks at a reply before it asks again.
proof fn lemma_surveyed_goes_on(survey: SurveyView)
    ensures
        stages_left(surveyed(survey)) <= 2,
        stages_left(surveyed(survey)) == 2 ==> answers_left(surveyed(survey)) < 2
            * survey.pending.len(),
    decreases survey.pending.len(),
{
    if survey.pending.len() > 0 {
        let (target, reply) = survey.pending[0];
        let rest = SurveyView { pending: survey.pending.drop_first(), ..survey };
        if reply matches Ok(None) {
            lemma_surveyed_goes_on(SurveyView { copies: survey.copies.push(target), ..rest });
        }
    }
}

/// Every answer brings a publication closer to its end: a publication ends.
pub proof fn law_every_answer_brings_the_end_closer(stage: StageView, event: EventView)
    requires
        fits(stage, event),
    ensures
        decreases_to!(stages_left(stage), answers_left(stage)
            => stages_left(next(stage, event)), answers_left(next(stage, event))),
{
    match (stage, event) {
        (StageView::ImagesSought { rollout, accounts }, EventView::ImagesSearched(replies)) => {
            lemma_surveyed_goes_on(
                SurveyView { rollout, accounts, pending: replies, copies: Seq::empty() },
            );
        },
        (
            StageView::TargetPermissionsNeeded { survey, target, image_id, public },
            EventView::PermissionsListed(Ok(launch_permissions)),
        ) => {
            lemma_surveyed_goes_on(
                with_found(survey, target, image_id, public, launch_permissions),
            );
        },
        _ => {},
    }
}

/// The configuration that a publication goes by, once it is loaded.
pub open spec fn config_loaded(events: Seq<EventView>) -> Option<AwsConfigView> {
    if events.len() > 0 {
        match events[0] {
            EventView::ConfigLoaded(Ok(Some(config))) => Some(config),
            EventView::ConfigLoaded(Ok(None)) => Some(empty_config()),
            _ => None,
        }
    } else {
        None
    }
}

/// The registration options that a publication goes by, once they are rendered.
pub open spec fn amispec_rendered(events: Seq<EventView>) -> Option<AmispecView> {
    if events.len() > 1 {
        match events[1] {
            EventView::AmispecRendered(Ok(amispec)) => Some(amispec),
            _ => None,
        }
    } else {
        None
    }
}

/// Whether the image was found at the source.
pub open spec fn image_found(events: Seq<EventView>) -> bool {
    events.len() > 2 && events[2] matches EventView::ImageSearched(Ok(Some(_)))
}

/// The image at the source, once it is known: the one that was found, with the snapshots that were
/// listed, or the one that was registered.
pub open spec fn source_ids(events: Seq<EventView>) -> Option<RegisteredIdsView> {
    if events.len() > 3 {
        match (events[2], events[3]) {
            (
                EventView::ImageSearched(Ok(Some(image_id))),
                EventView::SnapshotsListed(Ok(snapshot_ids)),
            ) => Some(RegisteredIdsView { image_id, snapshot_ids }),
            (EventView::ImageSearched(Ok(None)), EventView::ImageRegistered(Ok(ids))) => Some(ids),
            _ => None,
        }
    } else {
        None
    }
}

/// What is recorded of the image at the source, once it is known: of one that was found, what was
/// answered about it, and of a new one, that it is not public and nobody else may launch it.
pub open spec fn source_image(events: Seq<EventView>) -> Option<ImageView> {
    match (amispec_rendered(events), source_ids(events)) {
        (Some(amispec), Some(ids)) => {
            let described = |public: bool, launch_permissions: Seq<LaunchPermissionView>|
                ImageView {
                    id: ids.image_id,
                    name: amispec.name,
                    public: Some(public),
                    launch_permissions: Some(launch_permissions),
                };
            if !image_found(events) {
                Some(described(false, Seq::empty()))
            } else if events.len() > 5 {
                match (events[4], events[5]) {
                    (
                        EventView::PublicChecked(Ok(public)),
                        EventView::PermissionsListed(Ok(launch_permissions)),
                    ) => Some(described(public, launch_permissions)),
                    _ => None,
                }
            } else {
                None
            }
        },
        _ => None,
    }
}

/// A publication is never stuck: there is an answer to whatever it asks for. One that has ended
/// takes no answer.
pub proof fn law_some_answer_fits_until_the_end(stage: StageView)
    ensures
        stage !is Finished <==> exists|event: EventView| fits(stage, event),
{
    let targets = match stage {
        StageView::AccountsNeeded { rollout } => rollout.job.targets,
        StageView::ImagesSought { rollout, .. } => rollout.job.targets,
        StageView::CopiesNeeded { copies, .. } => copies,
        _ => Seq::empty(),
    };
    let nothing = targets.map_values(
        |t: RegionRoleView| (t, Ok::<Option<Seq<char>>, Seq<char>>(None)),
    );
    let no_copy = targets.map_values(
        |t: RegionRoleView| (t, Ok::<Option<Seq<char>>, Option<Seq<char>>>(None)),
    );
    lemma_answer_to_each(targets, nothing);
    lemma_answer_to_each(targets, no_copy);
    let event = match stage {
        StageView::ConfigNeeded { .. } => EventView::ConfigLoaded(Ok(None)),
        StageView::AmispecNeeded { .. } => EventView::AmispecRendered(Err(Seq::empty())),
        StageView::ImageSought { .. } => EventView::ImageSearched(Ok(None)),
        StageView::SnapshotsNeeded { .. } => EventView::SnapshotsListed(Ok(Seq::empty())),
        StageView::PublicNeeded { .. } => EventView::PublicChecked(Ok(false)),
        StageView::PermissionsNeeded { .. } => EventView::PermissionsListed(Ok(Seq::empty())),
        StageView::RegistrationNeeded { .. } => EventView::ImageRegistered(Err(Seq::empty())),
        StageView::AccountNeeded { .. } => EventView::AccountResolved(Ok(None)),
        StageView::AvailabilityNeeded { .. } => EventView::ImageAwaited(Ok(())),
        StageView::AccountsNeeded { .. } => EventView::AccountsResolved(nothing),
        StageView::SnapshotGrantNeeded { .. } => EventView::AccessGranted(Ok(())),
        StageView::ImageGrantNeeded { .. } => EventView::AccessGranted(Ok(())),
        StageView::ImagesSought { .. } => EventView::ImagesSearched(nothing),
        StageView::TargetPublicNeeded { .. } => EventView::PublicChecked(Ok(false)),
        StageView::TargetPermissionsNeeded { .. } => EventView::PermissionsListed(
            Ok(Seq::empty()),
        ),
        StageView::CopiesNeeded { .. } => EventView::ImagesCopied(no_copy),
        StageView::Finished { .. } => EventView::ConfigLoaded(Ok(None)),
    };
    if stage !is Finished {
        assert(fits(stage, event));
    }
}

/// A list with a reply to each target answers.
proof fn lemma_answer_to_each<R>(targets: Seq<RegionRoleView>, replies: Seq<(RegionRoleView, R)>)
    requires
        replies.len() == targets.len(),
        forall|i: int| 0 <= i < targets.len() ==> (#[trigger] replies[i]).0 == targets[i],
    ensures
        answers(targets, replies),
{
    assert forall|t: RegionRoleView| #[trigger] targets.contains(t) implies exists|i: int|
        0 <= i < replies.len() && (#[trigger] replies[i]).0 == t by {
        assert(replies[targets.index_of(t)].0 == t);
    }
    assert forall|i: int| 0 <= i < replies.len() implies targets.contains(
        (#[trigger] replies[i]).0,
    ) by {
        assert(targets[i] == replies[i].0);
    }
}

// ---------------------------------------------------------------------------------------------
// What happened before a stage was reached.
// ---------------------------------------------------------------------------------------------

/// Whether a stage of some kind was given an answer of some kind.
#[verifier::opaque]
pub open spec fn happened(
    overrides: Seq<Seq<char>>,
    events: Seq<EventView>,
    kind: spec_fn(StageView, EventView) -> bool,
) -> bool {
    exists|i: int|
        0 <= i < events.len() && kind(
            stage_after(overrides, events.take(i)),
            #[trigger] events[i],
        )
}

/// What happened stays so.
pub proof fn lemma_happened_before(
    overrides: Seq<Seq<char>>,
    events: Seq<EventView>,
    kind: spec_fn(StageView, EventView) -> bool,
)
    requires
        events.len() > 0,
        happened(overrides, events.drop_last(), kind),
    ensures
        happened(overrides, events, kind),
{
    reveal(happened);
    let init = events.drop_last();
    let i = choose|i: int|
        0 <= i < init.len() && kind(stage_after(overrides, init.take(i)), #[trigger] init[i]);
    assert(init.take(i) =~= events.take(i));
    assert(events[i] == init[i]);
}

/// The last answer happened.
pub proof fn lemma_happened_now(
    overrides: Seq<Seq<char>>,
    events: Seq<EventView>,
    kind: spec_fn(StageView, EventView) -> bool,
)
    requires
        events.len() > 0,
        kind(stage_after(overrides, events.drop_last()), events.last()),
    ensures
        happened(overrides, events, kind),
{
    reveal(happened);
    let n = events.len() - 1;
    assert(events.take(n) =~= events.drop_last());
    assert(kind(stage_after(overrides, events.take(n)), events[n]));
}

/// The account behind the source was resolved.
pub open spec fn source_resolved(job: JobView, account_id: Seq<char>) -> spec_fn(
    StageView,
    EventView,
) -> bool {
    |stage: StageView, event: EventView|
        {
            &&& stage is AccountNeeded
            &&& stage->AccountNeeded_job == job
            &&& event == EventView::AccountResolved(Ok(Some(account_id)))
        }
}

/// The image at the source became available.
pub open spec fn image_awaited(job: JobView, ids: RegisteredIdsView) -> spec_fn(
    StageView,
    EventView,
) -> bool {
    |stage: StageView, event: EventView|
        {
            &&& stage is AvailabilityNeeded
            &&& stage->AvailabilityNeeded_rollout.job == job
            &&& stage->AvailabilityNeeded_rollout.ids == ids
            &&& event is ImageAwaited
            &&& event->ImageAwaited_0 is Ok
        }
}

/// The accounts behind the targets were resolved.
pub open spec fn targets_resolved(
    job: JobView,
    accounts: Map<RegionRoleView, Seq<char>>,
) -> spec_fn(StageView, EventView) -> bool {
    |stage: StageView, event: EventView|
        {
            &&& stage is AccountsNeeded
            &&& stage->AccountsNeeded_rollout.job == job
            &&& event is AccountsResolved
            &&& account_ids_in(event->AccountsResolved_0) == Ok::<
                Map<RegionRoleView, Seq<char>>,
                AmiErrorView,
            >(accounts)
        }
}

/// The other accounts were granted access to the snapshots of the image at the source.
pub open spec fn snapshots_granted(
    ids: RegisteredIdsView,
    account_id: Seq<char>,
    accounts: Map<RegionRoleView, Seq<char>>,
) -> spec_fn(StageView, EventView) -> bool {
    |stage: StageView, event: EventView|
        {
            &&& stage is SnapshotGrantNeeded
            &&& stage->SnapshotGrantNeeded_rollout.ids == ids
            &&& stage->SnapshotGrantNeeded_rollout.account_id == account_id
            &&& stage->SnapshotGrantNeeded_accounts == accounts
            &&& event is AccessGranted
            &&& event->AccessGranted_0 is Ok
        }
}

/// The other accounts were granted access to the image at the source.
pub open spec fn image_granted(
    ids: RegisteredIdsView,
    account_id: Seq<char>,
    accounts: Map<RegionRoleView, Seq<char>>,
) -> spec_fn(StageView, EventView) -> bool {
    |stage: StageView, event: EventView|
        {
            &&& stage is ImageGrantNeeded
            &&& stage->ImageGrantNeeded_rollout.ids == ids
            &&& stage->ImageGrantNeeded_rollout.account_id == account_id
            &&& stage->ImageGrantNeeded_accounts == accounts
            &&& event is AccessGranted
            &&& event->AccessGranted_0 is Ok
        }
}

/// The targets that a search found no image at.
pub open spec fn missing(replies: Seq<SearchReplyView>) -> Seq<RegionRoleView>
    decreases replies.len(),
{
    if replies.len() == 0 {
        Seq::empty()
    } else {
        let rest = missing(replies.drop_first());
        if replies[0].1 == Ok::<Option<Seq<char>>, Seq<char>>(None) {
            seq![replies[0].0] + rest
        } else {
            rest
        }
    }
}

/// The image was looked for at the targets, and found at all but some.
pub open spec fn targets_searched(
    job: JobView,
    lacking: Seq<RegionRoleView>,
) -> spec_fn(StageView, EventView) -> bool {
    |stage: StageView, event: EventView|
        {
            &&& stage is ImagesSought
            &&& stage->ImagesSought_rollout.job == job
            &&& event is ImagesSearched
            &&& missing(event->ImagesSearched_0) == lacking
        }
}

/// What a stage knows of the rollout, once the image at the source is recorded.
pub open spec fn rollout_of(stage: StageView) -> Option<RolloutView> {
    match stage {
        StageView::AvailabilityNeeded { rollout } => Some(rollout),
        StageView::AccountsNeeded { rollout } => Some(rollout),
        StageView::SnapshotGrantNeeded { rollout, .. } => Some(rollout),
        StageView::ImageGrantNeeded { rollout, .. } => Some(rollout),
        StageView::ImagesSought { rollout, .. } => Some(rollout),
        StageView::TargetPublicNeeded { survey, .. } => Some(survey.rollout),
        StageView::TargetPermissionsNeeded { survey, .. } => Some(survey.rollout),
        StageView::CopiesNeeded { rollout, .. } => Some(rollout),
        _ => None,
    }
}

// ---------------------------------------------------------------------------------------------
// What a stage has behind it.
// ---------------------------------------------------------------------------------------------

/// The plan is the one for the command line and the configuration.
pub open spec fn plan_made(
    overrides: Seq<Seq<char>>,
    events: Seq<EventView>,
    plan: PlanView,
) -> bool {
    match config_loaded(events) {
        Some(config) => planned(overrides, config) == Ok::<PlanView, AmiErrorView>(plan),
        None => false,
    }
}

/// The source and the targets are those of the plan.
pub open spec fn job_planned(
    overrides: Seq<Seq<char>>,
    events: Seq<EventView>,
    job: JobView,
) -> bool {
    plan_made(overrides, events, PlanView { source: job.source, targets: job.targets })
}

/// The image at the source has been recorded, for the account that was resolved, and there are
/// targets to copy it to.
pub open spec fn source_recorded(
    overrides: Seq<Seq<char>>,
    events: Seq<EventView>,
    rollout: RolloutView,
) -> bool {
    &&& job_planned(overrides, events, rollout.job)
    &&& rollout.job.targets.len() > 0
    &&& happened(overrides, events, source_resolved(rollout.job, rollout.account_id))
    &&& has_image(rollout.amis, rollout.job.source.region, rollout.account_id)
}

/// Whether a place is the source's or a target's.
pub open spec fn is_place(
    job: JobView,
    account_id: Seq<char>,
    accounts: Map<RegionRoleView, Seq<char>>,
    region: Seq<char>,
    account: Seq<char>,
) -> bool {
    ||| region == job.source.region && account == account_id
    ||| exists|t: RegionRoleView| #[trigger]
        job.targets.contains(t) && t.region == region && accounts[t] == account
}

/// Images are recorded at the source and at targets only.
pub open spec fn in_place(
    amis: AmisView,
    job: JobView,
    account_id: Seq<char>,
    accounts: Map<RegionRoleView, Seq<char>>,
) -> bool {
    forall|region: Seq<char>, account: Seq<char>|
        #![trigger has_image(amis, region, account)]
        has_image(amis, region, account) ==> is_place(job, account_id, accounts, region, account)
}

/// The accounts of the targets have been resolved, after the image became available.
pub open spec fn accounts_behind(
    overrides: Seq<Seq<char>>,
    events: Seq<EventView>,
    rollout: RolloutView,
    accounts: Map<RegionRoleView, Seq<char>>,
) -> bool {
    &&& source_recorded(overrides, events, rollout)
    &&& in_place(rollout.amis, rollout.job, rollout.account_id, accounts)
    &&& happened(overrides, events, image_awaited(rollout.job, rollout.ids))
    &&& happened(overrides, events, targets_resolved(rollout.job, accounts))
}

/// Every account of a target but the one that owns the image has been granted access to the image
/// and its snapshots.
pub open spec fn access_granted(
    overrides: Seq<Seq<char>>,
    events: Seq<EventView>,
    rollout: RolloutView,
    accounts: Map<RegionRoleView, Seq<char>>,
) -> bool {
    ||| grants_of(accounts, rollout.account_id) =~= Set::empty()
    ||| {
        &&& happened(
            overrides,
            events,
            snapshots_granted(rollout.ids, rollout.account_id, accounts),
        )
        &&& happened(
            overrides,
            events,
            image_granted(rollout.ids, rollout.account_id, accounts),
        )
    }
}

/// Whether a list holds a reply about a target.
pub open spec fn has_reply(replies: Seq<SearchReplyView>, target: RegionRoleView) -> bool {
    exists|i: int| 0 <= i < replies.len() && (#[trigger] replies[i]).0 == target
}

/// What a survey has behind it and before it: a target that has no image yet is still to be looked
/// at, is being looked at, or is to be copied to.
pub open spec fn survey_behind(
    overrides: Seq<Seq<char>>,
    events: Seq<EventView>,
    survey: SurveyView,
    current: Option<RegionRoleView>,
) -> bool {
    let job = survey.rollout.job;
    &&& accounts_behind(overrides, events, survey.rollout, survey.accounts)
    &&& access_granted(overrides, events, survey.rollout, survey.accounts)
    &&& happened(
        overrides,
        events,
        targets_searched(job, survey.copies + missing(survey.pending)),
    )
    &&& forall|i: int|
        0 <= i < survey.pending.len() ==> job.targets.contains((#[trigger] survey.pending[i]).0)
    &&& forall|t: RegionRoleView| #[trigger]
        survey.copies.contains(t) ==> job.targets.contains(t)
    &&& current matches Some(t) ==> job.targets.contains(t)
    &&& forall|t: RegionRoleView| #[trigger]
        job.targets.contains(t) ==> {
            ||| has_reply(survey.pending, t)
            ||| survey.copies.contains(t)
            ||| current == Some(t)
            ||| has_image(survey.rollout.amis, t.region, survey.accounts[t])
        }
}

/// The images are those of the source and of every target, each in its account.
pub open spec fn covers(
    amis: AmisView,
    job: JobView,
    account_id: Seq<char>,
    accounts: Map<RegionRoleView, Seq<char>>,
) -> bool {
    &&& has_image(amis, job.source.region, account_id)
    &&& forall|t: RegionRoleView| #[trigger]
        job.targets.contains(t) ==> has_image(amis, t.region, accounts[t])
    &&& in_place(amis, job, account_id, accounts)
}

/// The images are those of the source and the targets that were planned, in the accounts that were
/// resolved.
pub open spec fn published(
    overrides: Seq<Seq<char>>,
    events: Seq<EventView>,
    amis: AmisView,
    job: JobView,
    account_id: Seq<char>,
    accounts: Map<RegionRoleView, Seq<char>>,
) -> bool {
    &&& job_planned(overrides, events, job)
    &&& happened(overrides, events, source_resolved(job, account_id))
    &&& job.targets.len() > 0 ==> happened(overrides, events, targets_resolved(job, accounts))
    &&& covers(amis, job, account_id, accounts)
}

/// The images are those of the source and the targets of the publication.
pub open spec fn published_everywhere(
    overrides: Seq<Seq<char>>,
    events: Seq<EventView>,
    amis: AmisView,
) -> bool {
    exists|job: JobView, account_id: Seq<char>, accounts: Map<RegionRoleView, Seq<char>>|
        #[trigger]
        published(overrides, events, amis, job, account_id, accounts)
}

/// What every stage has behind it.
pub open spec fn on_course(
    overrides: Seq<Seq<char>>,
    events: Seq<EventView>,
    stage: StageView,
) -> bool {
    match stage {
        StageView::ConfigNeeded { .. } => events.len() == 0,
        StageView::AmispecNeeded { plan } => plan_made(overrides, events, plan),
        StageView::ImageSought { job } => job_planned(overrides, events, job),
        StageView::SnapshotsNeeded { job, .. } => job_planned(overrides, events, job),
        StageView::PublicNeeded { job, .. } => job_planned(overrides, events, job),
        StageView::PermissionsNeeded { job, .. } => job_planned(overrides, events, job),
        StageView::RegistrationNeeded { job } => job_planned(overrides, events, job),
        StageView::AccountNeeded { job, .. } => job_planned(overrides, events, job),
        StageView::AvailabilityNeeded { rollout } => {
            &&& source_recorded(overrides, events, rollout)
            &&& source_only(rollout)
        },
        StageView::AccountsNeeded { rollout } => {
            &&& source_recorded(overrides, events, rollout)
            &&& source_only(rollout)
            &&& happened(overrides, events, image_awaited(rollout.job, rollout.ids))
        },
        StageView::SnapshotGrantNeeded { rollout, accounts } => {
            &&& accounts_behind(overrides, events, rollout, accounts)
            &&& !(grants_of(accounts, rollout.account_id) =~= Set::empty())
        },
        StageView::ImageGrantNeeded { rollout, accounts } => {
            &&& accounts_behind(overrides, events, rollout, accounts)
            &&& !(grants_of(accounts, rollout.account_id) =~= Set::empty())
            &&& happened(
                overrides,
                events,
                snapshots_granted(rollout.ids, rollout.account_id, accounts),
            )
        },
        StageView::ImagesSought { rollout, accounts } => {
            &&& accounts_behind(overrides, events, rollout, accounts)
            &&& access_granted(overrides, events, rollout, accounts)
        },
        StageView::TargetPublicNeeded { survey, target, .. } => {
            survey_behind(overrides, events, survey, Some(target))
        },
        StageView::TargetPermissionsNeeded { survey, target, .. } => {
            survey_behind(overrides, events, survey, Some(target))
        },
        StageView::CopiesNeeded { rollout, accounts, copies } => {
            &&& copies.len() > 0
            &&& survey_behind(
                overrides,
                events,
                SurveyView { rollout, accounts, pending: Seq::empty(), copies },
                None,
            )
        },
        StageView::Finished { outcome, .. } => match outcome {
            Ok(amis) => published_everywhere(overrides, events, amis),
            Err(_) => true,
        },
    }
}

/// Nothing but the image at the source has been recorded.
pub open spec fn source_only(rollout: RolloutView) -> bool {
    forall|region: Seq<char>, account: Seq<char>|
        #![trigger has_image(rollout.amis, region, account)]
        has_image(rollout.amis, region, account) ==> region == rollout.job.source.region && account
            == rollout.account_id
}

// ---------------------------------------------------------------------------------------------
// Each answer keeps a publication on its course.
// ---------------------------------------------------------------------------------------------

/// What lies behind a stage lies behind the stages after it.
proof fn lemma_still_behind(
    overrides: Seq<Seq<char>>,
    events: Seq<EventView>,
    rollout: RolloutView,
    accounts: Map<RegionRoleView, Seq<char>>,
)
    requires
        events.len() > 0,
    ensures
        source_recorded(overrides, events.drop_last(), rollout) ==> source_recorded(
            overrides,
            events,
            rollout,
        ),
        accounts_behind(overrides, events.drop_last(), rollout, accounts) ==> accounts_behind(
            overrides,
            events,
            rollout,
            accounts,
        ),
        access_granted(overrides, events.drop_last(), rollout, accounts) ==> access_granted(
            overrides,
            events,
            rollout,
            accounts,
        ),
{
    let init = events.drop_last();
    if init.len() > 0 {
        assert(init[0] == events[0]);
    }
    if happened(overrides, init, source_resolved(rollout.job, rollout.account_id)) {
        lemma_happened_before(
            overrides,
            events,
            source_resolved(rollout.job, rollout.account_id),
        );
    }
    if happened(overrides, init, image_awaited(rollout.job, rollout.ids)) {
        lemma_happened_before(overrides, events, image_awaited(rollout.job, rollout.ids));
    }
    if happened(overrides, init, targets_resolved(rollout.job, accounts)) {
        lemma_happened_before(overrides, events, targets_resolved(rollout.job, accounts));
    }
    let snapshots = snapshots_granted(rollout.ids, rollout.account_id, accounts);
    if happened(overrides, init, snapshots) {
        lemma_happened_before(overrides, events, snapshots);
    }
    let image = image_granted(rollout.ids, rollout.account_id, accounts);
    if happened(overrides, init, image) {
        lemma_happened_before(overrides, events, image);
    }
}

/// What lies behind a survey lies behind the stages after it.
proof fn lemma_survey_still_behind(
    overrides: Seq<Seq<char>>,
    events: Seq<EventView>,
    survey: SurveyView,
    current: Option<RegionRoleView>,
)
    requires
        events.len() > 0,
        survey_behind(overrides, events.drop_last(), survey, current),
    ensures
        survey_behind(overrides, events, survey, current),
{
    lemma_still_behind(overrides, events, survey.rollout, survey.accounts);
    lemma_happened_before(
        overrides,
        events,
        targets_searched(survey.rollout.job, survey.copies + missing(survey.pending)),
    );
}

/// A survey leads to a stage that has the survey behind it.
proof fn lemma_surveyed_on_course(
    overrides: Seq<Seq<char>>,
    events: Seq<EventView>,
    survey: SurveyView,
)
    requires
        survey_behind(overrides, events, survey, None),
    ensures
        on_course(overrides, events, surveyed(survey)),
    decreases survey.pending.len(),
{
    let job = survey.rollout.job;
    let amis = survey.rollout.amis;
    if survey.pending.len() == 0 {
        if survey.copies.len() == 0 {
            assert(published(
                overrides,
                events,
                amis,
                job,
                survey.rollout.account_id,
                survey.accounts,
            ));
            assert(published_everywhere(overrides, events, amis));
        } else {
            assert(survey.pending =~= Seq::empty());
        }
    } else {
        let (target, reply) = survey.pending[0];
        let rest = SurveyView { pending: survey.pending.drop_first(), ..survey };
        assert(job.targets.contains(survey.pending[0].0));
        assert forall|i: int| 0 <= i < rest.pending.len() implies job.targets.contains(
            (#[trigger] rest.pending[i]).0,
        ) by {
            assert(rest.pending[i] == survey.pending[i + 1]);
        }
        assert forall|t: RegionRoleView| #[trigger] has_reply(survey.pending, t) implies t == target
            || has_reply(rest.pending, t) by {
            let i = choose|i: int|
                0 <= i < survey.pending.len() && (#[trigger] survey.pending[i]).0 == t;
            if i > 0 {
                assert(rest.pending[i - 1].0 == t);
            }
        }
        match reply {
            Err(_) => {},
            Ok(Some(image_id)) => {
                assert(survey_behind(overrides, events, rest, Some(target)));
            },
            Ok(None) => {
                let onward = SurveyView { copies: survey.copies.push(target), ..rest };
                assert(onward.copies + missing(onward.pending) =~= survey.copies + missing(
                    survey.pending,
                ));
                assert(onward.copies[survey.copies.len() as int] == target);
                assert forall|t: RegionRoleView| #[trigger] onward.copies.contains(t) implies
                    job.targets.contains(t) by {
                    let i = onward.copies.index_of(t);
                    if i < survey.copies.len() {
                        assert(survey.copies[i] == t);
                        assert(survey.copies.contains(t));
                    }
                }
                assert forall|t: RegionRoleView| survey.copies.contains(t) implies
                    onward.copies.contains(t) by {
                    assert(onward.copies[survey.copies.index_of(t)] == t);
                }
                assert(survey_behind(overrides, events, onward, None));
                lemma_surveyed_on_course(overrides, events, onward);
            },
        }
    }
}

/// With the image of the current target recorded, a survey has only the rest before it.
proof fn lemma_found_behind(
    overrides: Seq<Seq<char>>,
    events: Seq<EventView>,
    survey: SurveyView,
    target: RegionRoleView,
    found: SurveyView,
    image: ImageView,
)
    requires
        survey_behind(overrides, events, survey, Some(target)),
        found == (SurveyView {
            rollout: RolloutView {
                amis: placed(
                    survey.rollout.amis,
                    target.region,
                    survey.accounts[target],
                    image,
                ),
                ..survey.rollout
            },
            ..survey
        }),
    ensures
        survey_behind(overrides, events, found, None),
{
    let job = survey.rollout.job;
    let account = survey.accounts[target];
    assert forall|r: Seq<char>, a: Seq<char>|
        #![trigger has_image(found.rollout.amis, r, a)]
        (has_image(found.rollout.amis, r, a) <==> has_image(survey.rollout.amis, r, a) || (r
            == target.region && a == account)) by {
        law_placed_image_is_found(survey.rollout.amis, target.region, account, image, r, a);
    }
    assert(job.targets.contains(target));
    assert(has_image(found.rollout.amis, target.region, account));
    assert(in_place(found.rollout.amis, job, survey.rollout.account_id, survey.accounts));
    assert forall|t: RegionRoleView| #[trigger] job.targets.contains(t) implies {
        ||| has_reply(found.pending, t)
        ||| found.copies.contains(t)
        ||| has_image(found.rollout.amis, t.region, found.accounts[t])
    } by {
        if has_image(survey.rollout.amis, t.region, survey.accounts[t]) {
            assert(has_image(found.rollout.amis, t.region, survey.accounts[t]));
        }
    }
}

/// Where every copy gave an ID, the images are those of the source and of every target.
proof fn lemma_copies_cover(
    overrides: Seq<Seq<char>>,
    events: Seq<EventView>,
    rollout: RolloutView,
    accounts: Map<RegionRoleView, Seq<char>>,
    copies: Seq<RegionRoleView>,
    replies: Seq<CopyReplyView>,
)
    requires
        survey_behind(
            overrides,
            events,
            SurveyView { rollout, accounts, pending: Seq::empty(), copies },
            None,
        ),
        answers(copies, replies),
        forall|i: int| 0 <= i < replies.len() ==> gave_id(#[trigger] replies[i]),
    ensures
        covers(
            with_copies(rollout.amis, rollout.job.name, accounts, replies),
            rollout.job,
            rollout.account_id,
            accounts,
        ),
{
    let job = rollout.job;
    let name = job.name;
    let after = with_copies(rollout.amis, name, accounts, replies);
    assert forall|r: Seq<char>, a: Seq<char>|
        #![trigger has_image(after, r, a)]
        (has_image(after, r, a) <==> has_image(rollout.amis, r, a) || copied_to(
            accounts,
            replies,
            r,
            a,
        )) by {
        law_copies_add_their_places(rollout.amis, name, accounts, replies, r, a);
    }
    assert forall|t: RegionRoleView| #[trigger] job.targets.contains(t) implies has_image(
        after,
        t.region,
        accounts[t],
    ) by {
        if copies.contains(t) {
            let i = choose|i: int| 0 <= i < replies.len() && (#[trigger] replies[i]).0 == t;
            assert(gave_id(replies[i]));
            assert(copied_to(accounts, replies, t.region, accounts[t]));
        }
    }
    assert forall|r: Seq<char>, a: Seq<char>|
        #![trigger has_image(after, r, a)]
        has_image(after, r, a) implies is_place(job, rollout.account_id, accounts, r, a) by {
        if !has_image(rollout.amis, r, a) {
            let i = choose|i: int|
                0 <= i < replies.len() && gave_id(#[trigger] replies[i]) && replies[i].0.region
                    == r && accounts[replies[i].0] == a;
            let t = replies[i].0;
            assert(copies.contains(t));
            assert(job.targets.contains(t));
        }
    }
    assert(has_image(after, job.source.region, rollout.account_id));
}

/// The image at the source, once recorded, is the only one.
proof fn lemma_source_placed(
    region: Seq<char>,
    account_id: Seq<char>,
    image: ImageView,
    amis: AmisView,
)
    requires
        amis == placed(Map::empty(), region, account_id, image),
    ensures
        has_image(amis, region, account_id),
        forall|r: Seq<char>, a: Seq<char>|
            #![trigger has_image(amis, r, a)]
            has_image(amis, r, a) ==> r == region && a == account_id,
{
    assert forall|r: Seq<char>, a: Seq<char>|
        #![trigger has_image(amis, r, a)]
        has_image(amis, r, a) implies r == region && a == account_id by {
        law_placed_image_is_found(Map::empty(), region, account_id, image, r, a);
    }
}

/// The account behind the source is resolved.
proof fn lemma_account_keeps_course(
    overrides: Seq<Seq<char>>,
    events: Seq<EventView>,
    job: JobView,
    ids: RegisteredIdsView,
    already_registered: bool,
    public: bool,
    launch_permissions: Seq<LaunchPermissionView>,
    reply: Result<Option<Seq<char>>, Seq<char>>,
)
    requires
        events.len() > 0,
        stage_after(overrides, events.drop_last()) == (StageView::AccountNeeded {
            job,
            ids,
            already_registered,
            public,
            launch_permissions,
        }),
        events.last() == EventView::AccountResolved(reply),
        job_planned(overrides, events, job),
    ensures
        on_course(
            overrides,
            events,
            after_account(job, ids, already_registered, public, launch_permissions, reply),
        ),
{
    if let Ok(Some(account_id)) = reply {
        let image = ImageView {
            id: ids.image_id,
            name: job.name,
            public: Some(public),
            launch_permissions: Some(launch_permissions),
        };
        let amis = placed(Map::empty(), job.source.region, account_id, image);
        lemma_happened_now(overrides, events, source_resolved(job, account_id));
        lemma_source_placed(job.source.region, account_id, image, amis);
        if job.targets.len() == 0 {
            assert(published(overrides, events, amis, job, account_id, Map::empty()));
            assert(published_everywhere(overrides, events, amis));
        }
    }
}

/// The image at the source becomes available.
proof fn lemma_wait_keeps_course(
    overrides: Seq<Seq<char>>,
    events: Seq<EventView>,
    rollout: RolloutView,
    reply: Result<(), Seq<char>>,
)
    requires
        events.len() > 0,
        stage_after(overrides, events.drop_last()) == (StageView::AvailabilityNeeded { rollout }),
        events.last() == EventView::ImageAwaited(reply),
        on_course(
            overrides,
            events.drop_last(),
            StageView::AvailabilityNeeded { rollout },
        ),
    ensures
        on_course(overrides, events, after_wait(rollout, reply)),
{
    lemma_still_behind(overrides, events, rollout, Map::empty());
    if reply is Ok {
        lemma_happened_now(overrides, events, image_awaited(rollout.job, rollout.ids));
    }
}

/// The accounts behind the targets are resolved.
proof fn lemma_accounts_keep_course(
    overrides: Seq<Seq<char>>,
    events: Seq<EventView>,
    rollout: RolloutView,
    replies: Seq<SearchReplyView>,
)
    requires
        events.len() > 0,
        stage_after(overrides, events.drop_last()) == (StageView::AccountsNeeded { rollout }),
        events.last() == EventView::AccountsResolved(replies),
        on_course(overrides, events.drop_last(), StageView::AccountsNeeded { rollout }),
    ensures
        on_course(overrides, events, after_accounts(rollout, replies)),
{
    if let Ok(accounts) = account_ids_in(replies) {
        lemma_still_behind(overrides, events, rollout, accounts);
        lemma_happened_before(overrides, events, image_awaited(rollout.job, rollout.ids));
        lemma_happened_now(overrides, events, targets_resolved(rollout.job, accounts));
        assert(in_place(rollout.amis, rollout.job, rollout.account_id, accounts));
    }
}

/// Access to the snapshots is granted.
proof fn lemma_snapshot_grant_keeps_course(
    overrides: Seq<Seq<char>>,
    events: Seq<EventView>,
    rollout: RolloutView,
    accounts: Map<RegionRoleView, Seq<char>>,
    reply: Result<(), Seq<char>>,
)
    requires
        events.len() > 0,
        stage_after(overrides, events.drop_last()) == (StageView::SnapshotGrantNeeded {
            rollout,
            accounts,
        }),
        events.last() == EventView::AccessGranted(reply),
        accounts_behind(overrides, events.drop_last(), rollout, accounts),
        !(grants_of(accounts, rollout.account_id) =~= Set::empty()),
    ensures
        on_course(overrides, events, after_snapshot_grant(rollout, accounts, reply)),
{
    lemma_still_behind(overrides, events, rollout, accounts);
    if reply is Ok {
        lemma_happened_now(
            overrides,
            events,
            snapshots_granted(rollout.ids, rollout.account_id, accounts),
        );
    }
}

/// Access to the image is granted.
proof fn lemma_image_grant_keeps_course(
    overrides: Seq<Seq<char>>,
    events: Seq<EventView>,
    rollout: RolloutView,
    accounts: Map<RegionRoleView, Seq<char>>,
    reply: Result<(), Seq<char>>,
)
    requires
        events.len() > 0,
        stage_after(overrides, events.drop_last()) == (StageView::ImageGrantNeeded {
            rollout,
            accounts,
        }),
        events.last() == EventView::AccessGranted(reply),
        accounts_behind(overrides, events.drop_last(), rollout, accounts),
        happened(
            overrides,
            events.drop_last(),
            snapshots_granted(rollout.ids, rollout.account_id, accounts),
        ),
    ensures
        on_course(overrides, events, after_image_grant(rollout, accounts, reply)),
{
    lemma_still_behind(overrides, events, rollout, accounts);
    lemma_happened_before(
        overrides,
        events,
        snapshots_granted(rollout.ids, rollout.account_id, accounts),
    );
    if reply is Ok {
        lemma_happened_now(
            overrides,
            events,
            image_granted(rollout.ids, rollout.account_id, accounts),
        );
    }
}

/// The replies about the targets arrive.
proof fn lemma_searches_keep_course(
    overrides: Seq<Seq<char>>,
    events: Seq<EventView>,
    rollout: RolloutView,
    accounts: Map<RegionRoleView, Seq<char>>,
    replies: Seq<SearchReplyView>,
)
    requires
        events.len() > 0,
        stage_after(overrides, events.drop_last()) == (StageView::ImagesSought {
            rollout,
            accounts,
        }),
        events.last() == EventView::ImagesSearched(replies),
        accounts_behind(overrides, events.drop_last(), rollout, accounts),
        access_granted(overrides, events.drop_last(), rollout, accounts),
        answers(rollout.job.targets, replies),
    ensures
        on_course(overrides, events, after_searches(rollout, accounts, replies)),
{
    lemma_still_behind(overrides, events, rollout, accounts);
    let survey = SurveyView { rollout, accounts, pending: replies, copies: Seq::empty() };
    assert(survey.copies + missing(survey.pending) =~= missing(replies));
    lemma_happened_now(overrides, events, targets_searched(rollout.job, missing(replies)));
    assert forall|t: RegionRoleView| #[trigger] rollout.job.targets.contains(t) implies has_reply(
        replies,
        t,
    ) by {}
    lemma_surveyed_on_course(overrides, events, survey);
}

/// The launch permissions of a target's image are listed.
proof fn lemma_target_permissions_keep_course(
    overrides: Seq<Seq<char>>,
    events: Seq<EventView>,
    survey: SurveyView,
    target: RegionRoleView,
    image_id: Seq<char>,
    public: bool,
    reply: Result<Seq<LaunchPermissionView>, Seq<char>>,
)
    requires
        events.len() > 0,
        survey_behind(overrides, events.drop_last(), survey, Some(target)),
    ensures
        on_course(
            overrides,
            events,
            after_target_permissions(survey, target, image_id, public, reply),
        ),
{
    lemma_survey_still_behind(overrides, events, survey, Some(target));
    if let Ok(launch_permissions) = reply {
        let image = ImageView {
            id: image_id,
            name: survey.rollout.job.name,
            public: Some(public),
            launch_permissions: Some(launch_permissions),
        };
        let found = with_found(survey, target, image_id, public, launch_permissions);
        lemma_found_behind(overrides, events, survey, target, found, image);
        lemma_surveyed_on_course(overrides, events, found);
    }
}

/// The replies to the copy requests arrive.
proof fn lemma_copies_keep_course(
    overrides: Seq<Seq<char>>,
    events: Seq<EventView>,
    rollout: RolloutView,
    accounts: Map<RegionRoleView, Seq<char>>,
    copies: Seq<RegionRoleView>,
    replies: Seq<CopyReplyView>,
)
    requires
        events.len() > 0,
        survey_behind(
            overrides,
            events.drop_last(),
            SurveyView { rollout, accounts, pending: Seq::empty(), copies },
            None,
        ),
        answers(copies, replies),
    ensures
        on_course(overrides, events, after_copies(rollout, accounts, replies)),
{
    let survey = SurveyView { rollout, accounts, pending: Seq::empty(), copies };
    lemma_survey_still_behind(overrides, events, survey, None);
    if forall|i: int| 0 <= i < replies.len() ==> gave_id(#[trigger] replies[i]) {
        let amis = with_copies(rollout.amis, rollout.job.name, accounts, replies);
        lemma_copies_cover(overrides, events, rollout, accounts, copies, replies);
        assert(published(
            overrides,
            events,
            amis,
            rollout.job,
            rollout.account_id,
            accounts,
        ));
        assert(published_everywhere(overrides, events, amis));
    }
}

/// An answer leads from a stage that is on course to one that is.
proof fn lemma_answer_keeps_course(overrides: Seq<Seq<char>>, events: Seq<EventView>)
    requires
        events.len() > 0,
        fits(stage_after(overrides, events.drop_last()), events.last()),
        on_course(
            overrides,
            events.drop_last(),
            stage_after(overrides, events.drop_last()),
        ),
    ensures
        on_course(overrides, events, stage_after(overrides, events)),
{
    if events.len() > 1 {
        assert(events.drop_last()[0] == events[0]);
    }
    match (stage_after(overrides, events.drop_last()), events.last()) {
        (
            StageView::AccountNeeded { job, ids, already_registered, public, launch_permissions },
            EventView::AccountResolved(reply),
        ) => lemma_account_keeps_course(
            overrides,
            events,
            job,
            ids,
            already_registered,
            public,
            launch_permissions,
            reply,
        ),
        (StageView::AvailabilityNeeded { rollout }, EventView::ImageAwaited(reply)) => {
            lemma_wait_keeps_course(overrides, events, rollout, reply)
        },
        (StageView::AccountsNeeded { rollout }, EventView::AccountsResolved(replies)) => {
            lemma_accounts_keep_course(overrides, events, rollout, replies)
        },
        (
            StageView::SnapshotGrantNeeded { rollout, accounts },
            EventView::AccessGranted(reply),
        ) => lemma_snapshot_grant_keeps_course(overrides, events, rollout, accounts, reply),
        (StageView::ImageGrantNeeded { rollout, accounts }, EventView::AccessGranted(reply)) => {
            lemma_image_grant_keeps_course(overrides, events, rollout, accounts, reply)
        },
        (StageView::ImagesSought { rollout, accounts }, EventView::ImagesSearched(replies)) => {
            lemma_searches_keep_course(overrides, events, rollout, accounts, replies)
        },
        (
            StageView::TargetPublicNeeded { survey, target, image_id },
            EventView::PublicChecked(reply),
        ) => lemma_survey_still_behind(overrides, events, survey, Some(target)),
        (
            StageView::TargetPermissionsNeeded { survey, target, image_id, public },
            EventView::PermissionsListed(reply),
        ) => lemma_target_permissions_keep_course(
            overrides,
            events,
            survey,
            target,
            image_id,
            public,
            reply,
        ),
        (
            StageView::CopiesNeeded { rollout, accounts, copies },
            EventView::ImagesCopied(replies),
        ) => lemma_copies_keep_course(overrides, events, rollout, accounts, copies, replies),
        _ => {},
    }
}

/// Every stage that a publication reaches is on course.
pub proof fn lemma_on_course(overrides: Seq<Seq<char>>, events: Seq<EventView>)
    requires
        legal(overrides, events),
    ensures
        on_course(overrides, events, stage_after(overrides, events)),
    decreases events.len(),
{
    if events.len() > 0 {
        lemma_legal_prefix(overrides, events);
        lemma_on_course(overrides, events.drop_last());
        lemma_answer_keeps_course(overrides, events);
    }
}

/// A publication that succeeds has published the image everywhere: the images are those of the
/// source and of every target, each under its region and the account that was resolved for it, and
/// there are no others.
pub proof fn law_success_covers_every_target(
    overrides: Seq<Seq<char>>,
    events: Seq<EventView>,
    amis: AmisView,
)
    requires
        legal(overrides, events),
        stage_after(overrides, events) matches StageView::Finished { outcome, .. } && outcome
            == Ok::<AmisView, AmiErrorView>(amis),
    ensures
        published_everywhere(overrides, events, amis),
{
    lemma_on_course(overrides, events);
}

/// A publication that succeeds has put an image into every region that was chosen, but for those
/// that are configured without any role.
pub proof fn law_success_reaches_every_chosen_region(
    overrides: Seq<Seq<char>>,
    events: Seq<EventView>,
    amis: AmisView,
    config: AwsConfigView,
    region: Seq<char>,
)
    requires
        legal(overrides, events),
        stage_after(overrides, events) matches StageView::Finished { outcome, .. } && outcome
            == Ok::<AmisView, AmiErrorView>(amis),
        config_loaded(events) == Some(config),
        chosen_regions(overrides, config).contains(region),
        roles_of(config, region).len() > 0,
    ensures
        exists|account_id: Seq<char>| has_image(amis, region, account_id),
{
    law_success_covers_every_target(overrides, events, amis);
    let (job, account_id, accounts) = choose|
        job: JobView,
        account_id: Seq<char>,
        accounts: Map<RegionRoleView, Seq<char>>,
    | #[trigger]
        published(overrides, events, amis, job, account_id, accounts);
    let plan = PlanView { source: job.source, targets: job.targets };
    let pair = RegionRoleView { region, role: roles_of(config, region)[0] };
    assert(roles_of(config, region).contains(pair.role));
    law_plan_reaches_every_pair(overrides, config, plan, pair);
    if pair != job.source {
        assert(job.targets.contains(pair));
        assert(has_image(amis, pair.region, accounts[pair]));
    } else {
        assert(has_image(amis, job.source.region, account_id));
    }
}

/// Where a stage has its source, once it is planned.
pub open spec fn source_of(stage: StageView) -> Option<RegionRoleView> {
    match stage {
        StageView::AmispecNeeded { plan } => Some(plan.source),
        StageView::ImageSought { job } => Some(job.source),
        StageView::SnapshotsNeeded { job, .. } => Some(job.source),
        StageView::PublicNeeded { job, .. } => Some(job.source),
        StageView::PermissionsNeeded { job, .. } => Some(job.source),
        StageView::RegistrationNeeded { job } => Some(job.source),
        StageView::AccountNeeded { job, .. } => Some(job.source),
        _ => match rollout_of(stage) {
            Some(rollout) => Some(rollout.job.source),
            None => None,
        },
    }
}

/// Where an action goes that is never for a target.
pub open spec fn asked_at_source(action: ActionView) -> Option<RegionRoleView> {
    match action {
        ActionView::RenderAmispec { at } => Some(at),
        ActionView::FindImage { at, .. } => Some(at),
        ActionView::ListSnapshots { at, .. } => Some(at),
        ActionView::RegisterImage { at } => Some(at),
        ActionView::ResolveAccount { at } => Some(at),
        ActionView::AwaitImage { at, .. } => Some(at),
        ActionView::GrantSnapshots { at, .. } => Some(at),
        ActionView::GrantImage { at, .. } => Some(at),
        _ => None,
    }
}

/// What is asked for at the source goes to the source of the stage.
proof fn lemma_asked_at_source(stage: StageView, source: RegionRoleView)
    requires
        source_of(stage) == Some(source),
    ensures
        asked_at_source(action_of(stage)) matches Some(at) ==> at == source,
        stage is PublicNeeded || stage is PermissionsNeeded ==> match action_of(stage) {
            ActionView::CheckPublic { at, .. } => at == source,
            ActionView::ListPermissions { at, .. } => at == source,
            _ => false,
        },
        action_of(stage) matches ActionView::CopyImages { requests } ==> forall|i: int|
            0 <= i < requests.len() ==> (#[trigger] requests[i]).source_region == source.region,
{
}

/// The source of a stage that is on course is that of the plan.
proof fn lemma_source_planned(
    overrides: Seq<Seq<char>>,
    events: Seq<EventView>,
    stage: StageView,
    source: RegionRoleView,
)
    requires
        on_course(overrides, events, stage),
        source_of(stage) == Some(source),
    ensures
        exists|plan: PlanView| #[trigger]
            plan_made(overrides, events, plan) && plan.source == source,
{
    let targets = match stage {
        StageView::AmispecNeeded { plan } => plan.targets,
        StageView::ImageSought { job } => job.targets,
        StageView::SnapshotsNeeded { job, .. } => job.targets,
        StageView::PublicNeeded { job, .. } => job.targets,
        StageView::PermissionsNeeded { job, .. } => job.targets,
        StageView::RegistrationNeeded { job } => job.targets,
        StageView::AccountNeeded { job, .. } => job.targets,
        _ => rollout_of(stage)->Some_0.job.targets,
    };
    assert(plan_made(overrides, events, PlanView { source, targets }));
}

/// The source is the first region that was chosen, with the first role configured for it, and
/// whatever is asked for at the source is asked for there. The copies are made from that region.
pub proof fn law_source_is_the_first_chosen_region(
    overrides: Seq<Seq<char>>,
    events: Seq<EventView>,
    source: RegionRoleView,
)
    requires
        legal(overrides, events),
        source_of(stage_after(overrides, events)) == Some(source),
    ensures
        config_loaded(events) matches Some(config) && {
            let regions = chosen_regions(overrides, config);
            &&& regions.len() > 0
            &&& source.region == regions[0]
            &&& source.role == first_role(roles_of(config, regions[0]))
        },
        asked_at_source(action_of(stage_after(overrides, events))) matches Some(at) ==> at
            == source,
        stage_after(overrides, events) is PublicNeeded || stage_after(
            overrides,
            events,
        ) is PermissionsNeeded ==> match action_of(stage_after(overrides, events)) {
            ActionView::CheckPublic { at, .. } => at == source,
            ActionView::ListPermissions { at, .. } => at == source,
            _ => false,
        },
        action_of(stage_after(overrides, events)) matches ActionView::CopyImages { requests }
            ==> forall|i: int|
            0 <= i < requests.len() ==> (#[trigger] requests[i]).source_region == source.region,
{
    let stage = stage_after(overrides, events);
    lemma_on_course(overrides, events);
    lemma_asked_at_source(stage, source);
    lemma_source_planned(overrides, events, stage, source);
}

/// Nothing is copied before the image at the source is available and every account of a target,
/// but the one that owns the image, has been granted access to the image and its snapshots.
pub proof fn law_copies_wait_for_access(
    overrides: Seq<Seq<char>>,
    events: Seq<EventView>,
    rollout: RolloutView,
    accounts: Map<RegionRoleView, Seq<char>>,
    copies: Seq<RegionRoleView>,
)
    requires
        legal(overrides, events),
        stage_after(overrides, events) == (StageView::CopiesNeeded { rollout, accounts, copies }),
    ensures
        happened(overrides, events, image_awaited(rollout.job, rollout.ids)),
        access_granted(overrides, events, rollout, accounts),
{
    lemma_on_course(overrides, events);
}

/// A publication without targets ends with the image at the source: whatever comes after that is
/// for the sake of targets.
pub proof fn law_only_targets_keep_it_going(
    overrides: Seq<Seq<char>>,
    events: Seq<EventView>,
    rollout: RolloutView,
)
    requires
        legal(overrides, events),
        rollout_of(stage_after(overrides, events)) == Some(rollout),
    ensures
        rollout.job.targets.len() > 0,
        has_image(rollout.amis, rollout.job.source.region, rollout.account_id),
{
    lemma_on_course(overrides, events);
}

/// Access is granted only where some target's account is not the one that owns the image.
pub proof fn law_access_is_granted_only_where_needed(
    overrides: Seq<Seq<char>>,
    events: Seq<EventView>,
)
    requires
        legal(overrides, events),
    ensures
        stage_after(overrides, events) matches StageView::SnapshotGrantNeeded { rollout, accounts }
            ==> exists|account_id: Seq<char>|
            grants_of(accounts, rollout.account_id).contains(account_id),
        stage_after(overrides, events) matches StageView::ImageGrantNeeded { rollout, accounts }
            ==> exists|account_id: Seq<char>|
            grants_of(accounts, rollout.account_id).contains(account_id),
{
    lemma_on_course(overrides, events);
}

/// The image is copied to exactly the targets that were found to lack it, of which there are some.
pub proof fn law_copies_go_where_the_image_is_missing(
    overrides: Seq<Seq<char>>,
    events: Seq<EventView>,
    rollout: RolloutView,
    accounts: Map<RegionRoleView, Seq<char>>,
    copies: Seq<RegionRoleView>,
)
    requires
        legal(overrides, events),
        stage_after(overrides, events) == (StageView::CopiesNeeded { rollout, accounts, copies }),
    ensures
        copies.len() > 0,
        happened(overrides, events, targets_searched(rollout.job, copies)),
        forall|t: RegionRoleView| #[trigger]
            copies.contains(t) ==> rollout.job.targets.contains(t),
{
    lemma_on_course(overrides, events);
    assert(copies + missing(Seq::empty()) =~= copies);
}

/// The answers that lead to the registration of the image, or past it.
proof fn lemma_first_answers(overrides: Seq<Seq<char>>, events: Seq<EventView>)
    requires
        legal(overrides, events),
    ensures
        match stage_after(overrides, events) {
            StageView::ConfigNeeded { .. } => events.len() == 0,
            StageView::AmispecNeeded { .. } => events.len() == 1,
            StageView::ImageSought { .. } => events.len() == 2,
            StageView::RegistrationNeeded { .. } => events.len() == 3 && events[2]
                == EventView::ImageSearched(Ok(None)),
            StageView::SnapshotsNeeded { image_id, .. } => events.len() == 3 && events[2]
                == EventView::ImageSearched(Ok(Some(image_id))),
            StageView::PublicNeeded { ids, .. } => events.len() == 4 && events[2]
                == EventView::ImageSearched(Ok(Some(ids.image_id))),
            StageView::PermissionsNeeded { ids, .. } => events.len() == 5 && events[2]
                == EventView::ImageSearched(Ok(Some(ids.image_id))),
            StageView::AccountNeeded { ids, already_registered, .. } => if already_registered {
                events.len() == 6 && events[2] == EventView::ImageSearched(
                    Ok(Some(ids.image_id)),
                )
            } else {
                events.len() == 4 && events[2] == EventView::ImageSearched(Ok(None))
                    && events[3] == EventView::ImageRegistered(Ok(ids))
            },
            _ => true,
        },
    decreases events.len(),
{
    if events.len() > 0 {
        lemma_legal_prefix(overrides, events);
        let init = events.drop_last();
        lemma_first_answers(overrides, init);
        let stage = stage_after(overrides, init);
        let event = events.last();
        match (stage, event) {
            (StageView::ImagesSought { rollout, accounts }, EventView::ImagesSearched(replies)) => {
                lemma_surveyed_goes_on(
                    SurveyView { rollout, accounts, pending: replies, copies: Seq::empty() },
                );
            },
            (
                StageView::TargetPermissionsNeeded { survey, target, image_id, public },
                EventView::PermissionsListed(Ok(launch_permissions)),
            ) => {
                lemma_surveyed_goes_on(
                    with_found(survey, target, image_id, public, launch_permissions),
                );
            },
            _ => {},
        }
    }
}

/// The image is registered only if it was not found at the source, and at most once.
pub proof fn law_registers_once_and_only_if_missing(
    overrides: Seq<Seq<char>>,
    events: Seq<EventView>,
    i: int,
    j: int,
)
    requires
        legal(overrides, events),
        0 <= i <= events.len(),
        0 <= j <= events.len(),
        stage_after(overrides, events.take(i)) is RegistrationNeeded,
    ensures
        i == 3,
        events[2] == EventView::ImageSearched(Ok(None)),
        stage_after(overrides, events.take(j)) is RegistrationNeeded ==> j == i,
{
    lemma_legal_take(overrides, events, i);
    lemma_legal_take(overrides, events, j);
    lemma_first_answers(overrides, events.take(i));
    lemma_first_answers(overrides, events.take(j));
}

/// The beginning of a legal course is legal.
pub proof fn lemma_legal_take(overrides: Seq<Seq<char>>, events: Seq<EventView>, n: int)
    requires
        legal(overrides, events),
        0 <= n <= events.len(),
    ensures
        legal(overrides, events.take(n)),
{
    let head = events.take(n);
    assert forall|i: int| 0 <= i < head.len() implies fits(
        stage_after(overrides, head.take(i)),
        #[trigger] head[i],
    ) by {
        assert(head.take(i) =~= events.take(i));
        assert(fits(stage_after(overrides, events.take(i)), events[i]));
    }
}

} // verus!
