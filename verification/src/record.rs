//! What is recorded of the images that a publication leaves.

use crate::course::{
    amispec_rendered, image_found, legal, lemma_legal_prefix, rollout_of, source_ids, source_image,
    stage_after,
};
use crate::error::AmiErrorView;
use crate::image::{has_image, placed, ImageView};
use crate::laws::law_placed_image_is_found;
use crate::model::{
    action_of, copied_image, copy_request, fits, gave_id, next, surveyed, with_copies, with_found,
    AmisView,
};
use crate::stage::{
    ActionView, CopyReplyView, CopyRequestView, EventView, JobView, RolloutView, StageView,
    SurveyView,
};
use crate::target::RegionRoleView;
use vstd::prelude::*;

verus! {

/// What a stage knows of the job, once the image has a name.
pub open spec fn job_of(stage: StageView) -> Option<JobView> {
    match stage {
        StageView::ImageSought { job } => Some(job),
        StageView::SnapshotsNeeded { job, .. } => Some(job),
        StageView::PublicNeeded { job, .. } => Some(job),
        StageView::PermissionsNeeded { job, .. } => Some(job),
        StageView::RegistrationNeeded { job } => Some(job),
        StageView::AccountNeeded { job, .. } => Some(job),
        _ => match rollout_of(stage) {
            Some(rollout) => Some(rollout.job),
            None => None,
        },
    }
}

/// Whether a job is about the image that the registration options name.
pub open spec fn goes_by(events: Seq<EventView>, job: JobView) -> bool {
    match amispec_rendered(events) {
        Some(amispec) => {
            &&& job.name == amispec.name
            &&& amispec.architecture == Some(job.arch)
            &&& job.description == amispec.description
        },
        None => false,
    }
}

/// Whether an image is recorded under a name, with whether it is public and who may launch it.
pub open spec fn described(image: ImageView, name: Seq<char>) -> bool {
    image.name == name && image.public is Some && image.launch_permissions is Some
}

/// Whether every image is recorded under one name.
pub open spec fn all_described(amis: AmisView, name: Seq<char>) -> bool {
    forall|region: Seq<char>, account_id: Seq<char>|
        #![trigger has_image(amis, region, account_id)]
        has_image(amis, region, account_id) ==> described(amis[region][account_id], name)
}

/// Whether every region has the image of some account.
pub open spec fn no_empty_region(amis: AmisView) -> bool {
    forall|region: Seq<char>| #[trigger]
        amis.contains_key(region) ==> exists|account_id: Seq<char>|
            has_image(amis, region, account_id)
}

/// With one more image recorded, still no region is empty.
proof fn lemma_placed_in_a_region(
    amis: AmisView,
    region: Seq<char>,
    account_id: Seq<char>,
    image: ImageView,
)
    requires
        no_empty_region(amis),
    ensures
        no_empty_region(placed(amis, region, account_id, image)),
{
    let after = placed(amis, region, account_id, image);
    assert forall|r: Seq<char>| #[trigger] after.contains_key(r) implies exists|a: Seq<char>|
        has_image(after, r, a) by {
        if r == region {
            assert(has_image(after, region, account_id));
        } else {
            let a = choose|a: Seq<char>| has_image(amis, r, a);
            assert(has_image(after, r, a));
        }
    }
}

/// An image that is described can be recorded.
proof fn lemma_placed_described(
    amis: AmisView,
    region: Seq<char>,
    account_id: Seq<char>,
    image: ImageView,
    name: Seq<char>,
)
    requires
        all_described(amis, name),
        described(image, name),
    ensures
        all_described(placed(amis, region, account_id, image), name),
{
    let after = placed(amis, region, account_id, image);
    assert forall|r: Seq<char>, a: Seq<char>|
        #![trigger has_image(after, r, a)]
        has_image(after, r, a) implies described(after[r][a], name) by {
        law_placed_image_is_found(amis, region, account_id, image, r, a);
    }
}

/// Copies are described.
proof fn lemma_copies_described(
    amis: AmisView,
    name: Seq<char>,
    accounts: Map<RegionRoleView, Seq<char>>,
    replies: Seq<CopyReplyView>,
)
    requires
        all_described(amis, name),
        no_empty_region(amis),
    ensures
        all_described(with_copies(amis, name, accounts, replies), name),
        no_empty_region(with_copies(amis, name, accounts, replies)),
    decreases replies.len(),
{
    if replies.len() > 0 {
        let init = replies.drop_last();
        let last = replies.last();
        lemma_copies_described(amis, name, accounts, init);
        if gave_id(last) {
            lemma_placed_described(
                with_copies(amis, name, accounts, init),
                last.0.region,
                accounts[last.0],
                copied_image(name, last.1->Ok_0->Some_0),
                name,
            );
            lemma_placed_in_a_region(
                with_copies(amis, name, accounts, init),
                last.0.region,
                accounts[last.0],
                copied_image(name, last.1->Ok_0->Some_0),
            );
        }
    }
}

/// What is known of a rollout from the answers so far.
pub open spec fn rollout_recorded(events: Seq<EventView>, rollout: RolloutView) -> bool {
    &&& events.len() > 3
    &&& goes_by(events, rollout.job)
    &&& source_ids(events) == Some(rollout.ids)
    &&& rollout.already_registered == image_found(events)
    &&& all_described(rollout.amis, rollout.job.name)
    &&& no_empty_region(rollout.amis)
}

/// What every stage knows from the answers so far.
pub open spec fn recorded(events: Seq<EventView>, stage: StageView) -> bool {
    match stage {
        StageView::ConfigNeeded { .. } => events.len() == 0,
        StageView::AmispecNeeded { .. } => events.len() == 1,
        StageView::ImageSought { job } => events.len() == 2 && goes_by(events, job),
        StageView::SnapshotsNeeded { job, image_id } => {
            &&& events.len() == 3
            &&& goes_by(events, job)
            &&& events[2] == EventView::ImageSearched(Ok(Some(image_id)))
        },
        StageView::RegistrationNeeded { job } => {
            &&& events.len() == 3
            &&& goes_by(events, job)
            &&& events[2] == EventView::ImageSearched(Ok(None))
        },
        StageView::PublicNeeded { job, ids } => {
            &&& events.len() == 4
            &&& goes_by(events, job)
            &&& source_ids(events) == Some(ids)
            &&& image_found(events)
        },
        StageView::PermissionsNeeded { job, ids, public } => {
            &&& events.len() == 5
            &&& goes_by(events, job)
            &&& source_ids(events) == Some(ids)
            &&& image_found(events)
            &&& events[4] == EventView::PublicChecked(Ok(public))
        },
        StageView::AccountNeeded { job, ids, already_registered, public, launch_permissions } => {
            &&& events.len() > 3
            &&& goes_by(events, job)
            &&& source_ids(events) == Some(ids)
            &&& already_registered == image_found(events)
            &&& source_image(events) == Some(
                ImageView {
                    id: ids.image_id,
                    name: job.name,
                    public: Some(public),
                    launch_permissions: Some(launch_permissions),
                },
            )
        },
        StageView::Finished { outcome, .. } => match outcome {
            Ok(amis) => amispec_rendered(events) matches Some(amispec) && {
                &&& amispec.architecture is Some
                &&& all_described(amis, amispec.name)
                &&& no_empty_region(amis)
            },
            Err(_) => true,
        },
        _ => rollout_of(stage) matches Some(rollout) && rollout_recorded(events, rollout),
    }
}

/// A survey leads to a stage that knows what the survey knows.
proof fn lemma_surveyed_recorded(events: Seq<EventView>, survey: SurveyView)
    requires
        rollout_recorded(events, survey.rollout),
    ensures
        recorded(events, surveyed(survey)),
    decreases survey.pending.len(),
{
    if survey.pending.len() > 0 {
        let (target, reply) = survey.pending[0];
        let rest = SurveyView { pending: survey.pending.drop_first(), ..survey };
        if reply matches Ok(None) {
            lemma_surveyed_recorded(
                events,
                SurveyView { copies: survey.copies.push(target), ..rest },
            );
        }
    }
}

/// What the answers say does not change as more of them come.
proof fn lemma_still_recorded(events: Seq<EventView>)
    requires
        events.len() > 0,
    ensures
        events.len() > 2 ==> amispec_rendered(events) == amispec_rendered(events.drop_last()),
        events.len() > 3 ==> image_found(events) == image_found(events.drop_last()),
        events.len() > 4 ==> source_ids(events) == source_ids(events.drop_last()),
{
    let init = events.drop_last();
    assert forall|i: int| 0 <= i < init.len() implies init[i] == events[i] by {}
}

/// An answer leads from a stage that knows what was answered to one that does.
proof fn lemma_answer_recorded(stage: StageView, events: Seq<EventView>)
    requires
        events.len() > 0,
        recorded(events.drop_last(), stage),
        fits(stage, events.last()),
    ensures
        recorded(events, next(stage, events.last())),
{
    lemma_still_recorded(events);
    let init = events.drop_last();
    assert forall|i: int| 0 <= i < init.len() implies init[i] == events[i] by {}
    match (stage, events.last()) {
        (
            StageView::AccountNeeded { job, ids, public, launch_permissions, .. },
            EventView::AccountResolved(Ok(Some(account_id))),
        ) => {
            let image = ImageView {
                id: ids.image_id,
                name: job.name,
                public: Some(public),
                launch_permissions: Some(launch_permissions),
            };
            lemma_placed_described(Map::empty(), job.source.region, account_id, image, job.name);
            lemma_placed_in_a_region(Map::empty(), job.source.region, account_id, image);
        },
        (StageView::ImagesSought { rollout, accounts }, EventView::ImagesSearched(replies)) => {
            lemma_surveyed_recorded(
                events,
                SurveyView { rollout, accounts, pending: replies, copies: Seq::empty() },
            );
        },
        (
            StageView::TargetPermissionsNeeded { survey, target, image_id, public },
            EventView::PermissionsListed(Ok(launch_permissions)),
        ) => {
            let rollout = survey.rollout;
            let image = ImageView {
                id: image_id,
                name: rollout.job.name,
                public: Some(public),
                launch_permissions: Some(launch_permissions),
            };
            lemma_placed_described(
                rollout.amis,
                target.region,
                survey.accounts[target],
                image,
                rollout.job.name,
            );
            lemma_placed_in_a_region(
                rollout.amis,
                target.region,
                survey.accounts[target],
                image,
            );
            lemma_surveyed_recorded(
                events,
                with_found(survey, target, image_id, public, launch_permissions),
            );
        },
        (
            StageView::CopiesNeeded { rollout, accounts, .. },
            EventView::ImagesCopied(replies),
        ) => {
            lemma_copies_described(rollout.amis, rollout.job.name, accounts, replies);
        },
        _ => {},
    }
}

/// Every stage that a publication reaches knows what was answered.
pub proof fn lemma_recorded(overrides: Seq<Seq<char>>, events: Seq<EventView>)
    requires
        legal(overrides, events),
    ensures
        recorded(events, stage_after(overrides, events)),
    decreases events.len(),
{
    if events.len() > 0 {
        lemma_legal_prefix(overrides, events);
        lemma_recorded(overrides, events.drop_last());
        lemma_answer_recorded(stage_after(overrides, events.drop_last()), events);
    }
}

/// What is searched for, registered and copied is the image that the registration options name,
/// for the architecture that they name.
pub proof fn law_job_goes_by_the_amispec(
    overrides: Seq<Seq<char>>,
    events: Seq<EventView>,
    job: JobView,
)
    requires
        legal(overrides, events),
        job_of(stage_after(overrides, events)) == Some(job),
    ensures
        goes_by(events, job),
{
    lemma_recorded(overrides, events);
}

/// Every image that a successful publication leaves bears the name that the registration options
/// give, and is recorded with whether it is public and who may launch it.
pub proof fn law_every_image_is_described(
    overrides: Seq<Seq<char>>,
    events: Seq<EventView>,
    amis: AmisView,
    region: Seq<char>,
    account_id: Seq<char>,
)
    requires
        legal(overrides, events),
        stage_after(overrides, events) matches StageView::Finished { outcome, .. } && outcome
            == Ok::<AmisView, AmiErrorView>(amis),
        has_image(amis, region, account_id),
    ensures
        amispec_rendered(events) matches Some(amispec) && described(
            amis[region][account_id],
            amispec.name,
        ),
{
    lemma_recorded(overrides, events);
}

/// No region that a successful publication leaves is empty.
pub proof fn law_no_region_is_empty(
    overrides: Seq<Seq<char>>,
    events: Seq<EventView>,
    amis: AmisView,
    region: Seq<char>,
)
    requires
        legal(overrides, events),
        stage_after(overrides, events) matches StageView::Finished { outcome, .. } && outcome
            == Ok::<AmisView, AmiErrorView>(amis),
        amis.contains_key(region),
    ensures
        exists|account_id: Seq<char>| has_image(amis, region, account_id),
{
    lemma_recorded(overrides, events);
}

/// The image that is copied is the one that was found or registered at the source, and the
/// requests say so.
pub proof fn law_copies_are_of_the_source_image(
    overrides: Seq<Seq<char>>,
    events: Seq<EventView>,
    requests: Seq<CopyRequestView>,
    i: int,
)
    requires
        legal(overrides, events),
        action_of(stage_after(overrides, events)) == (ActionView::CopyImages { requests }),
        0 <= i < requests.len(),
    ensures
        source_ids(events) matches Some(ids) && requests[i].source_image_id == ids.image_id,
        amispec_rendered(events) matches Some(amispec) && requests[i].name == amispec.name
            && requests[i].description == amispec.description,
        requests[i].copy_image_tags,
{
    lemma_recorded(overrides, events);
    let stage = stage_after(overrides, events);
    assert(requests[i] == copy_request(
        stage->CopiesNeeded_rollout,
        stage->CopiesNeeded_copies[i],
    ));
}

/// An image that was there before has to be seen available once, a new one three times.
pub proof fn law_new_image_is_awaited_longer(
    overrides: Seq<Seq<char>>,
    events: Seq<EventView>,
    at: RegionRoleView,
    image_id: Seq<char>,
    state: Seq<char>,
    successes: u8,
)
    requires
        legal(overrides, events),
        action_of(stage_after(overrides, events)) == (ActionView::AwaitImage {
            at,
            image_id,
            state,
            successes,
        }),
    ensures
        state == "available"@,
        source_ids(events) matches Some(ids) && image_id == ids.image_id,
        successes == if image_found(events) {
            1u8
        } else {
            3u8
        },
{
    lemma_recorded(overrides, events);
}

} // verus!
