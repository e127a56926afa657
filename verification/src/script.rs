//! The course of a publication, read off the list of its answers.
//!
//! The answers come in a fixed order. The first is the configuration, the second the registration
//! options, the third tells whether the image is there. What follows depends on that, on who owns
//! the targets, and on what the search at the targets finds, and each part of it has its place in
//! the list.

use crate::course::{
    amispec_rendered, config_loaded, image_found, legal, lemma_legal_prefix, source_ids,
    source_image, stage_after,
};
use crate::error::AmiErrorView;
use crate::identity::{account_ids_in, grants_of};
use crate::image::{placed, ImageView};
use crate::laws::law_grants_are_the_other_accounts;
use crate::model::{fits, gave_id, next, surveyed, with_copies, with_found, AmisView};
use crate::stage::{
    CopyOutcomeView, CopyReplyView, CopyReportView, EventView, JobView, RolloutView,
    SearchReplyView, StageView, SurveyView,
};
use crate::target::{planned, PlanView, RegionRoleView};
use vstd::prelude::*;

verus! {

// ---------------------------------------------------------------------------------------------
// What the answers say.
// ---------------------------------------------------------------------------------------------

/// Whether the answers tell where to publish, and what.
pub open spec fn job_known(overrides: Seq<Seq<char>>, events: Seq<EventView>) -> bool {
    &&& config_loaded(events) is Some
    &&& planned(overrides, config_loaded(events)->Some_0) is Ok
    &&& amispec_rendered(events) is Some
    &&& amispec_rendered(events)->Some_0.architecture is Some
}

/// Where to publish, and what.
pub open spec fn job_in(overrides: Seq<Seq<char>>, events: Seq<EventView>) -> JobView {
    let plan = planned(overrides, config_loaded(events)->Some_0)->Ok_0;
    let amispec = amispec_rendered(events)->Some_0;
    JobView {
        source: plan.source,
        targets: plan.targets,
        name: amispec.name,
        arch: amispec.architecture->Some_0,
        description: amispec.description,
    }
}

/// The place of the answer that gives the account of the source: after the search and the
/// registration, or after the search and the three questions about the image that it found.
pub open spec fn account_at(events: Seq<EventView>) -> int {
    if image_found(events) {
        6
    } else {
        4
    }
}

/// The account of the source.
pub open spec fn source_account(events: Seq<EventView>) -> Seq<char> {
    events[account_at(events)]->AccountResolved_0->Ok_0->Some_0
}

/// Whether the answers give the account of the source.
pub open spec fn account_known(events: Seq<EventView>) -> bool {
    &&& source_image(events) is Some
    &&& events.len() > account_at(events)
    &&& events[account_at(events)] == EventView::AccountResolved(
        Ok(Some(source_account(events))),
    )
}

/// The accounts of the targets.
pub open spec fn target_accounts(events: Seq<EventView>) -> Map<RegionRoleView, Seq<char>> {
    account_ids_in(events[account_at(events) + 2]->AccountsResolved_0)->Ok_0
}

/// Whether the answers tell that the image is available, and give the accounts of the targets.
pub open spec fn accounts_known(events: Seq<EventView>) -> bool {
    &&& account_known(events)
    &&& events.len() > account_at(events) + 2
    &&& events[account_at(events) + 1] is ImageAwaited
    &&& events[account_at(events) + 1]->ImageAwaited_0 is Ok
    &&& events[account_at(events) + 2] is AccountsResolved
    &&& account_ids_in(events[account_at(events) + 2]->AccountsResolved_0) is Ok
}

/// Whether some target belongs to another account than the source.
pub open spec fn others_own_targets(events: Seq<EventView>) -> bool {
    exists|t: RegionRoleView| #[trigger]
        target_accounts(events).contains_key(t) && target_accounts(events)[t] != source_account(
            events,
        )
}

/// The place of the answer to the search at the targets: after the accounts, and after the two
/// grants where there are any.
pub open spec fn search_at(events: Seq<EventView>) -> int {
    account_at(events) + if others_own_targets(events) {
        5int
    } else {
        3int
    }
}

/// Whether the grants that are needed have been made.
pub open spec fn grants_made(events: Seq<EventView>) -> bool {
    others_own_targets(events) ==> {
        &&& events[account_at(events) + 3] is AccessGranted
        &&& events[account_at(events) + 3]->AccessGranted_0 is Ok
        &&& events[account_at(events) + 4] is AccessGranted
        &&& events[account_at(events) + 4]->AccessGranted_0 is Ok
    }
}

/// What the search at the targets gave.
pub open spec fn search_replies(events: Seq<EventView>) -> Seq<SearchReplyView> {
    events[search_at(events)]->ImagesSearched_0
}

/// Whether the answers tell what the search at the targets gave.
pub open spec fn search_known(events: Seq<EventView>) -> bool {
    &&& accounts_known(events)
    &&& grants_made(events)
    &&& events.len() > search_at(events)
    &&& events[search_at(events)] is ImagesSearched
}

/// The targets at which a search found an image, with its ID, in the order of the replies.
pub open spec fn found_in(replies: Seq<SearchReplyView>) -> Seq<(RegionRoleView, Seq<char>)>
    decreases replies.len(),
{
    if replies.len() == 0 {
        Seq::empty()
    } else {
        let before = found_in(replies.drop_last());
        match replies.last().1 {
            Ok(Some(image_id)) => before.push((replies.last().0, image_id)),
            _ => before,
        }
    }
}

/// The targets at which a search found no image, in the order of the replies.
pub open spec fn lacking(replies: Seq<SearchReplyView>) -> Seq<RegionRoleView>
    decreases replies.len(),
{
    if replies.len() == 0 {
        Seq::empty()
    } else {
        let before = lacking(replies.drop_last());
        match replies.last().1 {
            Ok(None) => before.push(replies.last().0),
            _ => before,
        }
    }
}

/// The place of the first answer about the image that was found at a target.
pub open spec fn found_at(events: Seq<EventView>, j: int) -> int {
    search_at(events) + 1 + 2 * j
}

/// Whether the two questions about each image were answered, up to some image.
pub open spec fn described_up_to(events: Seq<EventView>, n: int) -> bool {
    forall|j: int|
        0 <= j < n ==> {
            &&& found_at(events, j) + 1 < events.len()
            &&& (#[trigger] events[found_at(events, j)]) is PublicChecked
            &&& events[found_at(events, j)]->PublicChecked_0 is Ok
            &&& events[found_at(events, j) + 1] is PermissionsListed
            &&& events[found_at(events, j) + 1]->PermissionsListed_0 is Ok
        }
}

/// What the answers say of an image that was found at a target.
pub open spec fn found_image(
    events: Seq<EventView>,
    name: Seq<char>,
    j: int,
    image_id: Seq<char>,
) -> ImageView {
    ImageView {
        id: image_id,
        name,
        public: Some(events[found_at(events, j)]->PublicChecked_0->Ok_0),
        launch_permissions: Some(events[found_at(events, j) + 1]->PermissionsListed_0->Ok_0),
    }
}

/// The images at the source alone.
pub open spec fn first_image(overrides: Seq<Seq<char>>, events: Seq<EventView>) -> AmisView {
    map![
        job_in(overrides, events).source.region => map![
            source_account(events) => source_image(events)->Some_0
        ]
    ]
}

/// The images after those that were found have been added, in the order of the replies.
pub open spec fn with_those_found(
    overrides: Seq<Seq<char>>,
    events: Seq<EventView>,
    replies: Seq<SearchReplyView>,
) -> AmisView
    decreases replies.len(),
{
    if replies.len() == 0 {
        first_image(overrides, events)
    } else {
        let init = replies.drop_last();
        let before = with_those_found(overrides, events, init);
        let (target, reply) = replies.last();
        match reply {
            Ok(Some(image_id)) => placed(
                before,
                target.region,
                target_accounts(events)[target],
                found_image(
                    events,
                    job_in(overrides, events).name,
                    found_in(init).len() as int,
                    image_id,
                ),
            ),
            _ => before,
        }
    }
}

/// The images after those that were copied have been added, in the order of the replies.
pub open spec fn with_those_copied(
    amis: AmisView,
    name: Seq<char>,
    accounts: Map<RegionRoleView, Seq<char>>,
    replies: Seq<CopyReplyView>,
) -> AmisView
    decreases replies.len(),
{
    if replies.len() == 0 {
        amis
    } else {
        let before = with_those_copied(amis, name, accounts, replies.drop_last());
        let (target, reply) = replies.last();
        match reply {
            Ok(Some(id)) => placed(
                before,
                target.region,
                accounts[target],
                ImageView {
                    id,
                    name,
                    public: Some(false),
                    launch_permissions: Some(Seq::empty()),
                },
            ),
            _ => before,
        }
    }
}

// ---------------------------------------------------------------------------------------------
// Each stage has its place.
// ---------------------------------------------------------------------------------------------

/// What a rollout holds is what the answers say.
pub open spec fn rollout_read(
    overrides: Seq<Seq<char>>,
    events: Seq<EventView>,
    rollout: RolloutView,
) -> bool {
    &&& job_known(overrides, events)
    &&& rollout.job == job_in(overrides, events)
    &&& rollout.job.targets.len() > 0
    &&& account_known(events)
    &&& source_ids(events) == Some(rollout.ids)
    &&& rollout.already_registered == image_found(events)
    &&& rollout.account_id == source_account(events)
}

/// What a survey holds, and the place that it has come to in the replies, is what the answers say.
pub open spec fn survey_read(
    overrides: Seq<Seq<char>>,
    events: Seq<EventView>,
    survey: SurveyView,
    p: int,
) -> bool {
    let replies = search_replies(events);
    let seen = replies.take(p);
    &&& rollout_read(overrides, events, survey.rollout)
    &&& search_known(events)
    &&& survey.accounts == target_accounts(events)
    &&& 0 <= p <= replies.len()
    &&& forall|i: int| 0 <= i < p ==> (#[trigger] replies[i]).1 is Ok
    &&& survey.copies == lacking(seen)
    &&& survey.rollout.amis == with_those_found(overrides, events, seen)
    &&& described_up_to(events, found_in(seen).len() as int)
}

/// The search at the targets failed at one of them, after all replies before it were looked at.
pub open spec fn stopped_by_search(
    overrides: Seq<Seq<char>>,
    events: Seq<EventView>,
    error: AmiErrorView,
    p: int,
) -> bool {
    let replies = search_replies(events);
    let job = job_in(overrides, events);
    &&& search_known(events)
    &&& 0 <= p < replies.len()
    &&& forall|i: int| 0 <= i < p ==> (#[trigger] replies[i]).1 is Ok
    &&& replies[p].1 is Err
    &&& events.len() == found_at(events, found_in(replies.take(p)).len() as int)
    &&& error == (AmiErrorView::GetAmiId {
        name: job.name,
        arch: job.arch,
        region: replies[p].0.region,
        source: replies[p].1->Err_0,
    })
}

/// What is left where there is no target.
pub open spec fn ends_at_source(
    overrides: Seq<Seq<char>>,
    events: Seq<EventView>,
    amis: AmisView,
) -> bool {
    &&& job_in(overrides, events).targets.len() == 0
    &&& account_known(events)
    &&& events.len() == account_at(events) + 1
    &&& amis == first_image(overrides, events)
}

/// What is left where every target has the image.
pub open spec fn ends_with_those_found(
    overrides: Seq<Seq<char>>,
    events: Seq<EventView>,
    amis: AmisView,
) -> bool {
    let replies = search_replies(events);
    &&& job_in(overrides, events).targets.len() > 0
    &&& search_known(events)
    &&& forall|i: int| 0 <= i < replies.len() ==> (#[trigger] replies[i]).1 is Ok
    &&& lacking(replies).len() == 0
    &&& described_up_to(events, found_in(replies).len() as int)
    &&& events.len() == found_at(events, found_in(replies).len() as int)
    &&& amis == with_those_found(overrides, events, replies)
}

/// Whether a publication has come to its copies, and was answered.
pub open spec fn copies_answered(overrides: Seq<Seq<char>>, events: Seq<EventView>) -> bool {
    let replies = search_replies(events);
    let n = found_in(replies).len() as int;
    &&& job_known(overrides, events)
    &&& job_in(overrides, events).targets.len() > 0
    &&& search_known(events)
    &&& forall|i: int| 0 <= i < replies.len() ==> (#[trigger] replies[i]).1 is Ok
    &&& lacking(replies).len() > 0
    &&& described_up_to(events, n)
    &&& events.len() == found_at(events, n) + 1
    &&& events[found_at(events, n)] is ImagesCopied
}

/// The replies to the copy requests.
pub open spec fn copy_replies(events: Seq<EventView>) -> Seq<CopyReplyView> {
    events[found_at(events, found_in(search_replies(events)).len() as int)]->ImagesCopied_0
}

/// Whether every copy gave an ID.
pub open spec fn all_copied(replies: Seq<CopyReplyView>) -> bool {
    forall|i: int|
        0 <= i < replies.len() ==> (#[trigger] replies[i]).1 is Ok && replies[i].1->Ok_0 is Some
}

/// Whether a report is about a copy: where it went, and what came of it.
pub open spec fn reports_copy(
    accounts: Map<RegionRoleView, Seq<char>>,
    report: CopyReportView,
    reply: CopyReplyView,
) -> bool {
    &&& report.at.region == reply.0.region
    &&& report.at.account_id == accounts[reply.0]
    &&& reply.1 matches Ok(Some(id)) ==> report.outcome == CopyOutcomeView::Registered(id)
    &&& reply.1 matches Ok(None) ==> report.outcome == CopyOutcomeView::NoImageId
    &&& reply.1 matches Err(Some(code)) ==> report.outcome == CopyOutcomeView::Failed(code)
    &&& reply.1 matches Err(None) ==> report.outcome == CopyOutcomeView::Failed("unknown"@)
}

/// What is left after the copies.
pub open spec fn ends_with_copies(
    overrides: Seq<Seq<char>>,
    events: Seq<EventView>,
    outcome: Result<AmisView, AmiErrorView>,
    reports: Seq<CopyReportView>,
) -> bool {
    let replies = copy_replies(events);
    &&& copies_answered(overrides, events)
    &&& outcome == if all_copied(replies) {
        Ok::<AmisView, AmiErrorView>(
            with_those_copied(
                with_those_found(overrides, events, search_replies(events)),
                job_in(overrides, events).name,
                target_accounts(events),
                replies,
            ),
        )
    } else {
        Err(AmiErrorView::AmiCopy)
    }
    &&& reports.len() == replies.len()
    &&& forall|i: int|
        0 <= i < replies.len() ==> reports_copy(
            target_accounts(events),
            #[trigger] reports[i],
            replies[i],
        )
}

/// How a publication has ended, by its answers.
pub open spec fn ending_read(
    overrides: Seq<Seq<char>>,
    events: Seq<EventView>,
    outcome: Result<AmisView, AmiErrorView>,
    reports: Seq<CopyReportView>,
) -> bool {
    if events.len() > 0 && events.last() is ImagesCopied {
        ends_with_copies(overrides, events, outcome, reports)
    } else {
        &&& reports.len() == 0
        &&& outcome matches Ok(amis) ==> job_known(overrides, events) && (ends_at_source(
            overrides,
            events,
            amis,
        ) || ends_with_those_found(overrides, events, amis))
        &&& outcome matches Err(error) ==> {
            &&& events.len() > 0
            &&& (events.last() is ImagesSearched || (events.last() is PermissionsListed
                && events.last()->PermissionsListed_0 is Ok)) ==> exists|p: int|
                stopped_by_search(overrides, events, error, p)
        }
    }
}

/// What a stage holds, and the number of answers before it, is what the answers say.
pub open spec fn read_off(
    overrides: Seq<Seq<char>>,
    events: Seq<EventView>,
    stage: StageView,
) -> bool {
    let n = events.len();
    match stage {
        StageView::ConfigNeeded { overrides: regions } => n == 0 && regions == overrides,
        StageView::AmispecNeeded { plan } => {
            &&& n == 1
            &&& config_loaded(events) is Some
            &&& planned(overrides, config_loaded(events)->Some_0) == Ok::<PlanView, AmiErrorView>(
                plan,
            )
        },
        StageView::ImageSought { job } => {
            n == 2 && job_known(overrides, events) && job == job_in(overrides, events)
        },
        StageView::SnapshotsNeeded { job, image_id } => {
            &&& n == 3
            &&& job_known(overrides, events)
            &&& job == job_in(overrides, events)
            &&& events[2] == EventView::ImageSearched(Ok(Some(image_id)))
        },
        StageView::PublicNeeded { job, ids } => {
            &&& n == 4
            &&& job_known(overrides, events)
            &&& job == job_in(overrides, events)
            &&& image_found(events)
            &&& source_ids(events) == Some(ids)
        },
        StageView::PermissionsNeeded { job, ids, public } => {
            &&& n == 5
            &&& job_known(overrides, events)
            &&& job == job_in(overrides, events)
            &&& image_found(events)
            &&& source_ids(events) == Some(ids)
            &&& events[4] == EventView::PublicChecked(Ok(public))
        },
        StageView::RegistrationNeeded { job } => {
            &&& n == 3
            &&& job_known(overrides, events)
            &&& job == job_in(overrides, events)
            &&& events[2] == EventView::ImageSearched(Ok(None))
        },
        StageView::AccountNeeded { job, ids, already_registered, public, launch_permissions } => {
            &&& n == account_at(events)
            &&& job_known(overrides, events)
            &&& job == job_in(overrides, events)
            &&& already_registered == image_found(events)
            &&& source_ids(events) == Some(ids)
            &&& source_image(events) == Some(
                ImageView {
                    id: ids.image_id,
                    name: job.name,
                    public: Some(public),
                    launch_permissions: Some(launch_permissions),
                },
            )
        },
        StageView::AvailabilityNeeded { rollout } => {
            &&& n == account_at(events) + 1
            &&& rollout_read(overrides, events, rollout)
            &&& rollout.amis == first_image(overrides, events)
        },
        StageView::AccountsNeeded { rollout } => {
            &&& n == account_at(events) + 2
            &&& rollout_read(overrides, events, rollout)
            &&& rollout.amis == first_image(overrides, events)
            &&& events[account_at(events) + 1] is ImageAwaited
            &&& events[account_at(events) + 1]->ImageAwaited_0 is Ok
        },
        StageView::SnapshotGrantNeeded { rollout, accounts } => {
            &&& n == account_at(events) + 3
            &&& rollout_read(overrides, events, rollout)
            &&& rollout.amis == first_image(overrides, events)
            &&& accounts_known(events)
            &&& accounts == target_accounts(events)
            &&& others_own_targets(events)
        },
        StageView::ImageGrantNeeded { rollout, accounts } => {
            &&& n == account_at(events) + 4
            &&& rollout_read(overrides, events, rollout)
            &&& rollout.amis == first_image(overrides, events)
            &&& accounts_known(events)
            &&& accounts == target_accounts(events)
            &&& others_own_targets(events)
            &&& events[account_at(events) + 3] is AccessGranted
            &&& events[account_at(events) + 3]->AccessGranted_0 is Ok
        },
        StageView::ImagesSought { rollout, accounts } => {
            &&& n == search_at(events)
            &&& rollout_read(overrides, events, rollout)
            &&& rollout.amis == first_image(overrides, events)
            &&& accounts_known(events)
            &&& accounts == target_accounts(events)
            &&& grants_made(events)
        },
        StageView::TargetPublicNeeded { survey, target, image_id } => {
            let p = search_replies(events).len() - survey.pending.len() - 1;
            &&& survey_read(overrides, events, survey, p)
            &&& p < search_replies(events).len()
            &&& survey.pending == search_replies(events).skip(p + 1)
            &&& search_replies(events)[p] == (
                target,
                Ok::<Option<Seq<char>>, Seq<char>>(Some(image_id)),
            )
            &&& n == found_at(events, found_in(search_replies(events).take(p)).len() as int)
        },
        StageView::TargetPermissionsNeeded { survey, target, image_id, public } => {
            let p = search_replies(events).len() - survey.pending.len() - 1;
            &&& survey_read(overrides, events, survey, p)
            &&& p < search_replies(events).len()
            &&& survey.pending == search_replies(events).skip(p + 1)
            &&& search_replies(events)[p] == (
                target,
                Ok::<Option<Seq<char>>, Seq<char>>(Some(image_id)),
            )
            &&& n == found_at(events, found_in(search_replies(events).take(p)).len() as int) + 1
            &&& events[n - 1] == EventView::PublicChecked(Ok(public))
        },
        StageView::CopiesNeeded { rollout, accounts, copies } => {
            let replies = search_replies(events);
            &&& survey_read(
                overrides,
                events,
                SurveyView { rollout, accounts, pending: Seq::empty(), copies },
                replies.len() as int,
            )
            &&& copies.len() > 0
            &&& copies == lacking(replies)
            &&& n == found_at(events, found_in(replies).len() as int)
        },
        StageView::Finished { outcome, reports } => {
            ending_read(overrides, events, outcome, reports)
        },
    }
}

// ---------------------------------------------------------------------------------------------
// What the answers say does not change as more of them come.
// ---------------------------------------------------------------------------------------------

/// The first answers stay.
pub proof fn lemma_job_stays(overrides: Seq<Seq<char>>, events: Seq<EventView>)
    requires
        events.len() > 0,
    ensures
        events.len() > 2 ==> job_known(overrides, events) == job_known(
            overrides,
            events.drop_last(),
        ),
        events.len() > 2 ==> job_in(overrides, events) == job_in(overrides, events.drop_last()),
        events.len() > 3 ==> image_found(events) == image_found(events.drop_last()),
        events.len() > 3 ==> account_at(events) == account_at(events.drop_last()),
        events.len() > 4 ==> source_ids(events) == source_ids(events.drop_last()),
        source_image(events.drop_last()) is Some ==> source_image(events) == source_image(
            events.drop_last(),
        ),
{
    let init = events.drop_last();
    assert forall|i: int| 0 <= i < init.len() implies init[i] == events[i] by {}
}

/// What was known of the accounts stays.
pub proof fn lemma_accounts_stay(overrides: Seq<Seq<char>>, events: Seq<EventView>)
    requires
        events.len() > 4,
        account_known(events.drop_last()),
    ensures
        account_known(events),
        account_at(events) == account_at(events.drop_last()),
        source_account(events) == source_account(events.drop_last()),
        job_in(overrides, events) == job_in(overrides, events.drop_last()),
        first_image(overrides, events) == first_image(overrides, events.drop_last()),
        accounts_known(events.drop_last()) ==> {
            &&& accounts_known(events)
            &&& target_accounts(events) == target_accounts(events.drop_last())
            &&& others_own_targets(events) == others_own_targets(events.drop_last())
            &&& search_at(events) == search_at(events.drop_last())
        },
        search_known(events.drop_last()) ==> {
            &&& search_known(events)
            &&& search_replies(events) == search_replies(events.drop_last())
        },
{
    let init = events.drop_last();
    lemma_job_stays(overrides, events);
    let k = account_at(init);
    assert(init[k] == events[k]);
    if accounts_known(init) {
        assert(init[k + 1] == events[k + 1]);
        assert(init[k + 2] == events[k + 2]);
        assert(accounts_known(events));
        assert(target_accounts(events) == target_accounts(init));
        assert(others_own_targets(events) == others_own_targets(init));
    }
    if search_known(init) {
        let s = search_at(init);
        assert(init[s] == events[s]);
        if others_own_targets(init) {
            assert(init[k + 3] == events[k + 3]);
            assert(init[k + 4] == events[k + 4]);
        }
    }
}

/// What was known of the images that were found stays.
proof fn lemma_found_stays(
    overrides: Seq<Seq<char>>,
    events: Seq<EventView>,
    replies: Seq<SearchReplyView>,
)
    requires
        events.len() > 4,
        search_known(events.drop_last()),
        described_up_to(events.drop_last(), found_in(replies).len() as int),
    ensures
        described_up_to(events, found_in(replies).len() as int),
        with_those_found(overrides, events, replies) == with_those_found(
            overrides,
            events.drop_last(),
            replies,
        ),
    decreases replies.len(),
{
    let init = events.drop_last();
    lemma_accounts_stay(overrides, events);
    let n = found_in(replies).len() as int;
    assert forall|j: int| 0 <= j < n implies {
        &&& found_at(events, j) + 1 < events.len()
        &&& (#[trigger] events[found_at(events, j)]) is PublicChecked
        &&& events[found_at(events, j)]->PublicChecked_0 is Ok
        &&& events[found_at(events, j) + 1] is PermissionsListed
        &&& events[found_at(events, j) + 1]->PermissionsListed_0 is Ok
    } by {
        assert(found_at(init, j) == found_at(events, j));
        assert(init[found_at(init, j)] == events[found_at(events, j)]);
        assert(init[found_at(init, j) + 1] == events[found_at(events, j) + 1]);
    }
    if replies.len() > 0 {
        let before = replies.drop_last();
        assert(described_up_to(init, found_in(before).len() as int));
        lemma_found_stays(overrides, events, before);
        if let Ok(Some(_)) = replies.last().1 {
            let j = found_in(before).len() as int;
            assert(found_at(init, j) == found_at(events, j));
            assert(init[found_at(init, j)] is PublicChecked);
            assert(init[found_at(init, j)] == events[found_at(events, j)]);
            assert(init[found_at(init, j) + 1] == events[found_at(events, j) + 1]);
        }
    }
}

// ---------------------------------------------------------------------------------------------
// Each answer leads to the stage that has the next place.
// ---------------------------------------------------------------------------------------------

/// The answers up to the account of the source.
proof fn lemma_early_read(overrides: Seq<Seq<char>>, events: Seq<EventView>, stage: StageView)
    requires
        events.len() > 0,
        read_off(overrides, events.drop_last(), stage),
        fits(stage, events.last()),
        stage is ConfigNeeded || stage is AmispecNeeded || stage is ImageSought
            || stage is SnapshotsNeeded || stage is PublicNeeded || stage is PermissionsNeeded
            || stage is RegistrationNeeded,
    ensures
        read_off(overrides, events, next(stage, events.last())),
{
    let init = events.drop_last();
    assert forall|i: int| 0 <= i < init.len() implies init[i] == events[i] by {}
    assert(events.last() == events[events.len() - 1]);
    lemma_job_stays(overrides, events);
}

/// The account of the source.
proof fn lemma_account_read(overrides: Seq<Seq<char>>, events: Seq<EventView>, stage: StageView)
    requires
        events.len() > 0,
        read_off(overrides, events.drop_last(), stage),
        fits(stage, events.last()),
        stage is AccountNeeded,
    ensures
        read_off(overrides, events, next(stage, events.last())),
{
    let init = events.drop_last();
    assert forall|i: int| 0 <= i < init.len() implies init[i] == events[i] by {}
    assert(events.last() == events[events.len() - 1]);
    lemma_job_stays(overrides, events);
    if let EventView::AccountResolved(Ok(Some(account_id))) = events.last() {
        let job = stage->AccountNeeded_job;
        let image = source_image(events)->Some_0;
        assert(source_account(events) == account_id);
        let amis = placed(Map::empty(), job.source.region, account_id, image);
        assert(Map::<Seq<char>, ImageView>::empty().insert(account_id, image) =~= map![
            account_id => image
        ]);
        assert(amis =~= first_image(overrides, events));
    }
}

/// The availability of the image, and the grants.
proof fn lemma_waiting_read(overrides: Seq<Seq<char>>, events: Seq<EventView>, stage: StageView)
    requires
        events.len() > 0,
        read_off(overrides, events.drop_last(), stage),
        fits(stage, events.last()),
        stage is AvailabilityNeeded || stage is SnapshotGrantNeeded || stage is ImageGrantNeeded,
    ensures
        read_off(overrides, events, next(stage, events.last())),
{
    let init = events.drop_last();
    lemma_accounts_stay(overrides, events);
    lemma_job_stays(overrides, events);
    assert(events.last() == events[events.len() - 1]);
    if stage is ImageGrantNeeded {
        let k = account_at(init);
        assert(init[k + 3] == events[k + 3]);
    }
}

/// The accounts of the targets.
proof fn lemma_accounts_read(
    overrides: Seq<Seq<char>>,
    events: Seq<EventView>,
    rollout: RolloutView,
)
    requires
        events.len() > 0,
        read_off(overrides, events.drop_last(), StageView::AccountsNeeded { rollout }),
        fits(StageView::AccountsNeeded { rollout }, events.last()),
    ensures
        read_off(
            overrides,
            events,
            next(StageView::AccountsNeeded { rollout }, events.last()),
        ),
{
    let init = events.drop_last();
    lemma_accounts_stay(overrides, events);
    lemma_job_stays(overrides, events);
    let k = account_at(init);
    assert(init[k + 1] == events[k + 1]);
    assert(events.last() == events[k + 2]);
    let replies = events.last()->AccountsResolved_0;
    if let Ok(accounts) = account_ids_in(replies) {
        assert(accounts_known(events));
        assert(target_accounts(events) == accounts);
        let owner = rollout.account_id;
        if others_own_targets(events) {
            let t = choose|t: RegionRoleView| #[trigger]
                accounts.contains_key(t) && accounts[t] != owner;
            law_grants_are_the_other_accounts(accounts, owner, accounts[t]);
            assert(grants_of(accounts, owner).contains(accounts[t]));
        } else {
            assert forall|a: Seq<char>| !grants_of(accounts, owner).contains(a) by {
                law_grants_are_the_other_accounts(accounts, owner, a);
            }
            assert(grants_of(accounts, owner) =~= Set::empty());
        }
    }
}

/// A survey leads to the stage that has the next place.
proof fn lemma_surveyed_read(
    overrides: Seq<Seq<char>>,
    events: Seq<EventView>,
    survey: SurveyView,
    p: int,
)
    requires
        events.len() > 0,
        events.last() is ImagesSearched || events.last() is PermissionsListed,
        survey_read(overrides, events, survey, p),
        survey.pending == search_replies(events).skip(p),
        events.len() == found_at(events, found_in(search_replies(events).take(p)).len() as int),
    ensures
        read_off(overrides, events, surveyed(survey)),
    decreases survey.pending.len(),
{
    let replies = search_replies(events);
    if survey.pending.len() == 0 {
        assert(p == replies.len());
        assert(replies.take(p) =~= replies);
    } else {
        let (target, reply) = survey.pending[0];
        assert(survey.pending[0] == replies[p]);
        let rest = SurveyView { pending: survey.pending.drop_first(), ..survey };
        assert(rest.pending =~= replies.skip(p + 1));
        assert(p == replies.len() - rest.pending.len() - 1);
        match reply {
            Err(source) => {
                let job = survey.rollout.job;
                assert(stopped_by_search(
                    overrides,
                    events,
                    AmiErrorView::GetAmiId {
                        name: job.name,
                        arch: job.arch,
                        region: target.region,
                        source,
                    },
                    p,
                ));
            },
            Ok(Some(_)) => {},
            Ok(None) => {
                let seen = replies.take(p + 1);
                assert(seen.drop_last() =~= replies.take(p));
                assert(seen.last() == replies[p]);
                let onward = SurveyView { copies: survey.copies.push(target), ..rest };
                assert(found_in(seen) == found_in(replies.take(p)));
                assert(survey_read(overrides, events, onward, p + 1));
                lemma_surveyed_read(overrides, events, onward, p + 1);
            },
        }
    }
}

/// The search at the targets.
proof fn lemma_searches_read(
    overrides: Seq<Seq<char>>,
    events: Seq<EventView>,
    rollout: RolloutView,
    accounts: Map<RegionRoleView, Seq<char>>,
)
    requires
        events.len() > 0,
        read_off(overrides, events.drop_last(), StageView::ImagesSought { rollout, accounts }),
        fits(StageView::ImagesSought { rollout, accounts }, events.last()),
    ensures
        read_off(
            overrides,
            events,
            next(StageView::ImagesSought { rollout, accounts }, events.last()),
        ),
{
    let init = events.drop_last();
    lemma_accounts_stay(overrides, events);
    lemma_job_stays(overrides, events);
    let k = account_at(init);
    let s = search_at(init);
    assert(events.last() == events[s]);
    if others_own_targets(init) {
        assert(init[k + 3] == events[k + 3]);
        assert(init[k + 4] == events[k + 4]);
    }
    let replies = search_replies(events);
    assert(replies == events.last()->ImagesSearched_0);
    let survey = SurveyView { rollout, accounts, pending: replies, copies: Seq::empty() };
    assert(replies.take(0) =~= Seq::empty());
    assert(replies.skip(0) =~= replies);
    assert(survey_read(overrides, events, survey, 0));
    lemma_surveyed_read(overrides, events, survey, 0);
}

/// What a survey holds stays what the answers say.
proof fn lemma_survey_stays_read(
    overrides: Seq<Seq<char>>,
    events: Seq<EventView>,
    survey: SurveyView,
    p: int,
)
    requires
        events.len() > 4,
        survey_read(overrides, events.drop_last(), survey, p),
    ensures
        survey_read(overrides, events, survey, p),
        search_replies(events) == search_replies(events.drop_last()),
        search_at(events) == search_at(events.drop_last()),
{
    lemma_job_stays(overrides, events);
    lemma_accounts_stay(overrides, events);
    lemma_found_stays(overrides, events, search_replies(events.drop_last()).take(p));
}

/// Whether the image of a target is public.
proof fn lemma_target_public_read(
    overrides: Seq<Seq<char>>,
    events: Seq<EventView>,
    survey: SurveyView,
    target: RegionRoleView,
    image_id: Seq<char>,
)
    requires
        events.len() > 0,
        read_off(
            overrides,
            events.drop_last(),
            StageView::TargetPublicNeeded { survey, target, image_id },
        ),
        fits(StageView::TargetPublicNeeded { survey, target, image_id }, events.last()),
    ensures
        read_off(
            overrides,
            events,
            next(StageView::TargetPublicNeeded { survey, target, image_id }, events.last()),
        ),
{
    let init = events.drop_last();
    let p = search_replies(init).len() - survey.pending.len() - 1;
    lemma_survey_stays_read(overrides, events, survey, p);
    assert(events.last() == events[events.len() - 1]);
}

/// Who may launch the image of a target.
proof fn lemma_target_permissions_read(
    overrides: Seq<Seq<char>>,
    events: Seq<EventView>,
    survey: SurveyView,
    target: RegionRoleView,
    image_id: Seq<char>,
    public: bool,
)
    requires
        events.len() > 0,
        read_off(
            overrides,
            events.drop_last(),
            StageView::TargetPermissionsNeeded { survey, target, image_id, public },
        ),
        fits(
            StageView::TargetPermissionsNeeded { survey, target, image_id, public },
            events.last(),
        ),
    ensures
        read_off(
            overrides,
            events,
            next(
                StageView::TargetPermissionsNeeded { survey, target, image_id, public },
                events.last(),
            ),
        ),
{
    let init = events.drop_last();
    let p = search_replies(init).len() - survey.pending.len() - 1;
    lemma_survey_stays_read(overrides, events, survey, p);
    if let EventView::PermissionsListed(Ok(launch_permissions)) = events.last() {
        let replies = search_replies(events);
        let seen = replies.take(p + 1);
        let j = found_in(replies.take(p)).len() as int;
        assert(seen.drop_last() =~= replies.take(p));
        assert(seen.last() == replies[p]);
        assert(events[found_at(events, j)] == init[init.len() - 1]);
        assert(events[found_at(events, j) + 1] == events.last());
        assert(found_in(seen).len() == j + 1);
        assert(found_image(events, survey.rollout.job.name, j, image_id) == (ImageView {
            id: image_id,
            name: survey.rollout.job.name,
            public: Some(public),
            launch_permissions: Some(launch_permissions),
        }));
        let found = with_found(survey, target, image_id, public, launch_permissions);
        assert(described_up_to(events, j + 1));
        assert(survey_read(overrides, events, found, p + 1));
        lemma_surveyed_read(overrides, events, found, p + 1);
    }
}

/// Copies are added as the replies say.
proof fn lemma_copied_as_replied(
    amis: AmisView,
    name: Seq<char>,
    accounts: Map<RegionRoleView, Seq<char>>,
    replies: Seq<CopyReplyView>,
)
    ensures
        with_copies(amis, name, accounts, replies) == with_those_copied(
            amis,
            name,
            accounts,
            replies,
        ),
    decreases replies.len(),
{
    if replies.len() > 0 {
        lemma_copied_as_replied(amis, name, accounts, replies.drop_last());
    }
}

/// The copies.
proof fn lemma_copies_read(
    overrides: Seq<Seq<char>>,
    events: Seq<EventView>,
    rollout: RolloutView,
    accounts: Map<RegionRoleView, Seq<char>>,
    copies: Seq<RegionRoleView>,
)
    requires
        events.len() > 0,
        read_off(
            overrides,
            events.drop_last(),
            StageView::CopiesNeeded { rollout, accounts, copies },
        ),
        fits(StageView::CopiesNeeded { rollout, accounts, copies }, events.last()),
    ensures
        read_off(
            overrides,
            events,
            next(StageView::CopiesNeeded { rollout, accounts, copies }, events.last()),
        ),
{
    let init = events.drop_last();
    let searched = search_replies(init);
    let survey = SurveyView { rollout, accounts, pending: Seq::empty(), copies };
    lemma_survey_stays_read(overrides, events, survey, searched.len() as int);
    assert(searched.take(searched.len() as int) =~= searched);
    let n = found_in(searched).len() as int;
    assert(events.last() == events[found_at(events, n)]);
    let replies = events.last()->ImagesCopied_0;
    assert(copy_replies(events) == replies);
    lemma_copied_as_replied(rollout.amis, rollout.job.name, accounts, replies);
    let end = next(StageView::CopiesNeeded { rollout, accounts, copies }, events.last());
    assert(copies_answered(overrides, events));
    let all = forall|i: int| 0 <= i < replies.len() ==> gave_id(#[trigger] replies[i]);
    if all {
        assert forall|i: int| 0 <= i < replies.len() implies (#[trigger] replies[i]).1 is Ok
            && replies[i].1->Ok_0 is Some by {
            assert(gave_id(replies[i]));
        }
        assert(all_copied(replies));
    } else {
        let i = choose|i: int| 0 <= i < replies.len() && !gave_id(#[trigger] replies[i]);
        assert(!(replies[i].1 is Ok && replies[i].1->Ok_0 is Some));
        assert(!all_copied(replies));
    }
    assert(ends_with_copies(overrides, events, end->Finished_outcome, end->Finished_reports));
}

/// Every stage that a publication reaches is the one that its answers say.
pub proof fn lemma_read_off(overrides: Seq<Seq<char>>, events: Seq<EventView>)
    requires
        legal(overrides, events),
    ensures
        read_off(overrides, events, stage_after(overrides, events)),
    decreases events.len(),
{
    if events.len() > 0 {
        let stage = stage_after(overrides, events.drop_last());
        lemma_legal_prefix(overrides, events);
        lemma_read_off(overrides, events.drop_last());
        match stage {
            StageView::AccountNeeded { .. } => lemma_account_read(overrides, events, stage),
            StageView::AvailabilityNeeded { .. } => lemma_waiting_read(overrides, events, stage),
            StageView::SnapshotGrantNeeded { .. } => lemma_waiting_read(overrides, events, stage),
            StageView::ImageGrantNeeded { .. } => lemma_waiting_read(overrides, events, stage),
            StageView::AccountsNeeded { rollout } => {
                lemma_accounts_read(overrides, events, rollout)
            },
            StageView::ImagesSought { rollout, accounts } => {
                lemma_searches_read(overrides, events, rollout, accounts)
            },
            StageView::TargetPublicNeeded { survey, target, image_id } => {
                lemma_target_public_read(overrides, events, survey, target, image_id)
            },
            StageView::TargetPermissionsNeeded { survey, target, image_id, public } => {
                lemma_target_permissions_read(overrides, events, survey, target, image_id, public)
            },
            StageView::CopiesNeeded { rollout, accounts, copies } => {
                lemma_copies_read(overrides, events, rollout, accounts, copies)
            },
            _ => lemma_early_read(overrides, events, stage),
        }
    }
}

} // verus!
