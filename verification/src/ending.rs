//! Which answers a publication takes, and how it ends.

use crate::course::{amispec_rendered, legal, source_image, stage_after};
use crate::error::AmiErrorView;
use crate::identity::account_in;
use crate::laws::{law_first_failing_response_decides, lemma_all_given};
use crate::model::{action_of, answers, fits, next, AmisView};
use crate::script::{ending_read, job_in, lemma_read_off, read_off, source_account};
use crate::stage::{
    ActionView, CopyReportView, CopyRequestView, EventView, SearchReplyView, StageView,
};
use crate::target::{AwsConfigView, RegionRoleView};
use vstd::prelude::*;

verus! {

// ---------------------------------------------------------------------------------------------
// Which answers a publication takes.
// ---------------------------------------------------------------------------------------------

/// Whether a list of replies is about some targets, about each of them, and about no other.
pub open spec fn about<R>(targets: Seq<RegionRoleView>, replies: Seq<(RegionRoleView, R)>) -> bool {
    forall|t: RegionRoleView| #[trigger] targets.contains(t) <==> is_about(replies, t)
}

/// Whether a list of replies holds one about a target.
pub open spec fn is_about<R>(replies: Seq<(RegionRoleView, R)>, target: RegionRoleView) -> bool {
    exists|i: int| 0 <= i < replies.len() && (#[trigger] replies[i]).0 == target
}

/// Whether an event is of the kind that answers an action, and about what was asked.
pub open spec fn answers_action(action: ActionView, event: EventView) -> bool {
    match action {
        ActionView::LoadConfig => event is ConfigLoaded,
        ActionView::RenderAmispec { .. } => event is AmispecRendered,
        ActionView::FindImage { .. } => event is ImageSearched,
        ActionView::ListSnapshots { .. } => event is SnapshotsListed,
        ActionView::CheckPublic { .. } => event is PublicChecked,
        ActionView::ListPermissions { .. } => event is PermissionsListed,
        ActionView::RegisterImage { .. } => event is ImageRegistered,
        ActionView::ResolveAccount { .. } => event is AccountResolved,
        ActionView::AwaitImage { .. } => event is ImageAwaited,
        ActionView::ResolveAccounts { targets } => {
            event is AccountsResolved && about(targets, event->AccountsResolved_0)
        },
        ActionView::GrantSnapshots { .. } => event is AccessGranted,
        ActionView::GrantImage { .. } => event is AccessGranted,
        ActionView::FindImages { targets, .. } => {
            event is ImagesSearched && about(targets, event->ImagesSearched_0)
        },
        ActionView::CopyImages { requests } => {
            event is ImagesCopied && about(
                requests.map_values(|request: CopyRequestView| request.target),
                event->ImagesCopied_0,
            )
        },
        ActionView::Finish => false,
    }
}

/// What answers a question is about the targets of the question.
proof fn lemma_answers_about<R>(
    asked: Seq<RegionRoleView>,
    replies: Seq<(RegionRoleView, R)>,
)
    ensures
        answers(asked, replies) <==> about(asked, replies),
{
    if answers(asked, replies) {
        assert forall|t: RegionRoleView| #[trigger] asked.contains(t) <==> is_about(replies, t) by {
            if is_about(replies, t) {
                let i = choose|i: int| 0 <= i < replies.len() && (#[trigger] replies[i]).0 == t;
                assert(asked.contains(replies[i].0));
            }
        }
    }
    if about(asked, replies) {
        assert forall|t: RegionRoleView| #[trigger] asked.contains(t) implies exists|i: int|
            0 <= i < replies.len() && (#[trigger] replies[i]).0 == t by {
            assert(is_about(replies, t));
        }
        assert forall|i: int| 0 <= i < replies.len() implies asked.contains(
            (#[trigger] replies[i]).0,
        ) by {
            assert(is_about(replies, replies[i].0));
        }
    }
}

/// A publication takes an event exactly if it is of the kind that answers what it asks for, and
/// about exactly the targets that it asks about. One that has ended takes none.
pub proof fn law_only_what_was_asked_for_fits(stage: StageView, event: EventView)
    ensures
        fits(stage, event) <==> answers_action(action_of(stage), event),
{
    match (stage, event) {
        (StageView::AccountsNeeded { rollout }, EventView::AccountsResolved(replies)) => {
            lemma_answers_about(rollout.job.targets, replies);
        },
        (StageView::ImagesSought { rollout, .. }, EventView::ImagesSearched(replies)) => {
            lemma_answers_about(rollout.job.targets, replies);
        },
        (StageView::CopiesNeeded { copies, .. }, EventView::ImagesCopied(replies)) => {
            lemma_answers_about(copies, replies);
            let requests = action_of(stage)->CopyImages_requests;
            assert(requests.map_values(|request: CopyRequestView| request.target) =~= copies);
        },
        _ => {},
    }
}

// ---------------------------------------------------------------------------------------------
// How a failure ends a publication.
// ---------------------------------------------------------------------------------------------

/// Whether neither the command line nor the configuration names a region.
pub open spec fn no_region(
    overrides: Seq<Seq<char>>,
    config: Option<AwsConfigView>,
) -> bool {
    overrides.len() == 0 && (config is None || config->Some_0.regions.len() == 0)
}

/// The error with which a publication ends when it is told of a failure: it names what was asked
/// for, and where.
pub open spec fn error_for(
    overrides: Seq<Seq<char>>,
    events: Seq<EventView>,
    action: ActionView,
    event: EventView,
) -> Option<AmiErrorView> {
    match (action, event) {
        (ActionView::LoadConfig, EventView::ConfigLoaded(Err(source))) => Some(
            AmiErrorView::Config { source },
        ),
        (ActionView::LoadConfig, EventView::ConfigLoaded(Ok(config))) => if no_region(
            overrides,
            config,
        ) {
            Some(AmiErrorView::MissingConfig { missing: "aws.regions"@ })
        } else {
            None
        },
        (ActionView::RenderAmispec { .. }, EventView::AmispecRendered(Err(source))) => Some(
            AmiErrorView::Amispec { source },
        ),
        (ActionView::RenderAmispec { .. }, EventView::AmispecRendered(Ok(amispec))) => {
            if amispec.architecture is None {
                Some(AmiErrorView::MissingArchitecture)
            } else {
                None
            }
        },
        (ActionView::FindImage { at, name, arch }, EventView::ImageSearched(Err(source))) => Some(
            AmiErrorView::GetAmiId { name, arch, region: at.region, source },
        ),
        (ActionView::ListSnapshots { at, image_id }, EventView::SnapshotsListed(Err(source))) => {
            Some(AmiErrorView::GetSnapshots { image_id, region: at.region, source })
        },
        (ActionView::CheckPublic { at, image_id }, EventView::PublicChecked(Err(source))) => Some(
            AmiErrorView::IsAmiPublic { image_id, region: at.region, source },
        ),
        (
            ActionView::ListPermissions { at, image_id },
            EventView::PermissionsListed(Err(source)),
        ) => Some(
            AmiErrorView::DescribeImageAttribute { image_id, region: at.region, source },
        ),
        (ActionView::RegisterImage { at }, EventView::ImageRegistered(Err(source))) => Some(
            AmiErrorView::RegisterImage {
                name: amispec_rendered(events)->Some_0.name,
                arch: amispec_rendered(events)->Some_0.architecture->Some_0,
                region: at.region,
                source,
            },
        ),
        (ActionView::ResolveAccount { at }, EventView::AccountResolved(Err(source))) => Some(
            AmiErrorView::GetCallerIdentity { region: at.region, source },
        ),
        (ActionView::ResolveAccount { .. }, EventView::AccountResolved(Ok(None))) => Some(
            AmiErrorView::MissingInResponse {
                request_type: "GetCallerIdentity"@,
                missing: "account"@,
            },
        ),
        (ActionView::AwaitImage { at, image_id, .. }, EventView::ImageAwaited(Err(source))) => {
            Some(AmiErrorView::WaitAmi { id: image_id, region: at.region, source })
        },
        (ActionView::GrantSnapshots { at, .. }, EventView::AccessGranted(Err(source))) => Some(
            AmiErrorView::GrantAccess { thing: "snapshots"@, region: at.region, source },
        ),
        (ActionView::GrantImage { at, .. }, EventView::AccessGranted(Err(source))) => Some(
            AmiErrorView::GrantImageAccess { thing: "image"@, region: at.region, source },
        ),
        _ => None,
    }
}

/// A failure ends a publication at once, with the error that names what was asked for and where,
/// and with no copy to report. Any other answer about a single thing ends it with no error, but
/// for the failure of a search that is come upon after the questions about an image.
pub proof fn law_failure_names_what_was_asked_for(
    overrides: Seq<Seq<char>>,
    events: Seq<EventView>,
    event: EventView,
)
    requires
        legal(overrides, events),
        fits(stage_after(overrides, events), event),
    ensures
        match error_for(overrides, events, action_of(stage_after(overrides, events)), event) {
            Some(error) => next(stage_after(overrides, events), event) == (StageView::Finished {
                outcome: Err(error),
                reports: Seq::empty(),
            }),
            None => event is AccountsResolved || event is ImagesSearched || event is ImagesCopied
                || event is PermissionsListed || !(next(stage_after(overrides, events), event)
                matches StageView::Finished { outcome, .. } && outcome is Err),
        },
{
    lemma_read_off(overrides, events);
    lemma_single_answer(overrides, events, stage_after(overrides, events), event);
}

/// What a single answer leads to.
proof fn lemma_single_answer(
    overrides: Seq<Seq<char>>,
    events: Seq<EventView>,
    stage: StageView,
    event: EventView,
)
    requires
        read_off(overrides, events, stage),
        fits(stage, event),
    ensures
        match error_for(overrides, events, action_of(stage), event) {
            Some(error) => next(stage, event) == (StageView::Finished {
                outcome: Err(error),
                reports: Seq::empty(),
            }),
            None => event is AccountsResolved || event is ImagesSearched || event is ImagesCopied
                || event is PermissionsListed || !(next(stage, event) matches StageView::Finished {
                outcome,
                ..
            } && outcome is Err),
        },
{
}

/// Where some account of a target cannot be resolved, the publication ends with the error of the
/// first response that gives none: that the request failed in the region of that target, or that
/// the response holds no account. Where all can be resolved, it goes on.
pub proof fn law_first_unresolved_target_ends_it(
    stage: StageView,
    replies: Seq<SearchReplyView>,
    p: int,
)
    requires
        stage is AccountsNeeded,
        0 <= p <= replies.len(),
        forall|i: int|
            0 <= i < p ==> (#[trigger] replies[i]).1 is Ok && replies[i].1->Ok_0 is Some,
        p < replies.len() ==> !(replies[p].1 is Ok && replies[p].1->Ok_0 is Some),
    ensures
        p == replies.len() ==> next(stage, EventView::AccountsResolved(replies)) !is Finished,
        p < replies.len() && replies[p].1 is Err ==> next(
            stage,
            EventView::AccountsResolved(replies),
        ) == (StageView::Finished {
            outcome: Err(
                AmiErrorView::GetCallerIdentity {
                    region: replies[p].0.region,
                    source: replies[p].1->Err_0,
                },
            ),
            reports: Seq::empty(),
        }),
        p < replies.len() && replies[p].1 is Ok ==> next(
            stage,
            EventView::AccountsResolved(replies),
        ) == (StageView::Finished {
            outcome: Err(
                AmiErrorView::MissingInResponse {
                    request_type: "GetCallerIdentity"@,
                    missing: "account"@,
                },
            ),
            reports: Seq::empty(),
        }),
{
    assert forall|i: int| 0 <= i < p implies account_in(
        (#[trigger] replies[i]).0.region,
        replies[i].1,
    ) is Ok by {}
    if p < replies.len() {
        law_first_failing_response_decides(
            replies,
            p,
            account_in(replies[p].0.region, replies[p].1)->Err_0,
        );
    } else {
        lemma_all_given(replies);
    }
}

// ---------------------------------------------------------------------------------------------
// What a publication leaves.
// ---------------------------------------------------------------------------------------------

/// A publication ends as its answers say. Without targets, it leaves the image at the source, as
/// soon as the account of the source is resolved. Where the search finds the image at every
/// target, it leaves that and what was found, as soon as each image was asked about. Otherwise it
/// leaves these and what was copied, or the error that some copies failed, and reports each copy.
/// A failed search is come upon after the replies before it, and names the region of its target.
pub proof fn law_ends_as_answered(
    overrides: Seq<Seq<char>>,
    events: Seq<EventView>,
    outcome: Result<AmisView, AmiErrorView>,
    reports: Seq<CopyReportView>,
)
    requires
        legal(overrides, events),
        stage_after(overrides, events) == (StageView::Finished { outcome, reports }),
    ensures
        ending_read(overrides, events, outcome, reports),
{
    lemma_read_off(overrides, events);
}

/// Whatever the search and the copies give, the image at the source is recorded as it was found or
/// registered, before anything else: with the ID and the name that it has there, and with what was
/// answered of it, or as private where it is new.
pub proof fn law_source_image_is_recorded_first(
    overrides: Seq<Seq<char>>,
    events: Seq<EventView>,
)
    requires
        legal(overrides, events),
        stage_after(overrides, events) is AvailabilityNeeded,
    ensures
        stage_after(overrides, events)->AvailabilityNeeded_rollout.amis == map![
            job_in(overrides, events).source.region => map![
                source_account(events) => source_image(events)->Some_0
            ]
        ],
{
    lemma_read_off(overrides, events);
}

} // verus!
