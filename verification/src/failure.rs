//! When a publication fails.

use crate::course::{amispec_rendered, config_loaded, legal, lemma_legal_prefix, stage_after};
use crate::error::AmiErrorView;
use crate::identity::account_ids_in;
use crate::model::{fits, gave_id, next, surveyed, with_found, AmisView};
use crate::stage::{EventView, SearchReplyView, StageView, SurveyView};
use crate::target::chosen_regions;
use vstd::prelude::*;

verus! {

/// Whether some target could not be searched.
pub open spec fn search_failed(replies: Seq<SearchReplyView>) -> bool {
    exists|i: int| 0 <= i < replies.len() && (#[trigger] replies[i]).1 is Err
}

/// Whether an answer tells of a failure.
pub open spec fn tells_of_failure(event: EventView) -> bool {
    match event {
        EventView::ConfigLoaded(reply) => reply is Err,
        EventView::AmispecRendered(reply) => reply is Err,
        EventView::ImageSearched(reply) => reply is Err,
        EventView::SnapshotsListed(reply) => reply is Err,
        EventView::PublicChecked(reply) => reply is Err,
        EventView::PermissionsListed(reply) => reply is Err,
        EventView::ImageRegistered(reply) => reply is Err,
        EventView::AccountResolved(reply) => reply is Err || reply->Ok_0 is None,
        EventView::ImageAwaited(reply) => reply is Err,
        EventView::AccountsResolved(replies) => account_ids_in(replies) is Err,
        EventView::AccessGranted(reply) => reply is Err,
        EventView::ImagesSearched(replies) => search_failed(replies),
        EventView::ImagesCopied(replies) => exists|i: int|
            0 <= i < replies.len() && !gave_id(#[trigger] replies[i]),
    }
}

/// A failure ends a publication with an error at once, but for that of a search at the targets,
/// whose replies are looked at in turn.
pub proof fn law_failure_ends_the_publication(stage: StageView, event: EventView)
    requires
        fits(stage, event),
        tells_of_failure(event),
        event !is ImagesSearched,
    ensures
        next(stage, event) matches StageView::Finished { outcome, .. } && outcome is Err,
{
}

/// Whether no answer tells of a failure.
pub open spec fn no_failure(events: Seq<EventView>) -> bool {
    forall|i: int| 0 <= i < events.len() ==> !tells_of_failure(#[trigger] events[i])
}

/// Whether a stage will yet come upon every failure that it was told of.
pub open spec fn no_failure_passed(events: Seq<EventView>, stage: StageView) -> bool {
    match stage {
        StageView::TargetPublicNeeded { survey, .. } => {
            no_failure(events) || search_failed(survey.pending)
        },
        StageView::TargetPermissionsNeeded { survey, .. } => {
            no_failure(events) || search_failed(survey.pending)
        },
        StageView::Finished { outcome, .. } => outcome is Err || no_failure(events),
        _ => no_failure(events),
    }
}

/// A survey comes upon the first failure of its search.
proof fn lemma_surveyed_passes_no_failure(events: Seq<EventView>, survey: SurveyView)
    requires
        no_failure(events) || search_failed(survey.pending),
    ensures
        no_failure_passed(events, surveyed(survey)),
    decreases survey.pending.len(),
{
    if survey.pending.len() > 0 {
        let (target, reply) = survey.pending[0];
        let rest = SurveyView { pending: survey.pending.drop_first(), ..survey };
        if reply is Ok && search_failed(survey.pending) {
            let i = choose|i: int|
                0 <= i < survey.pending.len() && (#[trigger] survey.pending[i]).1 is Err;
            assert(rest.pending[i - 1].1 is Err);
        }
        if reply matches Ok(None) {
            lemma_surveyed_passes_no_failure(
                events,
                SurveyView { copies: survey.copies.push(target), ..rest },
            );
        }
    }
}

/// An answer that tells of no failure leaves none to be told of.
proof fn lemma_no_failure_last(events: Seq<EventView>)
    requires
        events.len() > 0,
    ensures
        no_failure(events) <==> no_failure(events.drop_last()) && !tells_of_failure(events.last()),
{
    let init = events.drop_last();
    if no_failure(events) {
        assert forall|i: int| 0 <= i < init.len() implies !tells_of_failure(#[trigger] init[i]) by {
            assert(init[i] == events[i]);
        }
        assert(!tells_of_failure(events[events.len() - 1]));
    }
    if no_failure(init) && !tells_of_failure(events.last()) {
        assert forall|i: int| 0 <= i < events.len() implies !tells_of_failure(
            #[trigger] events[i],
        ) by {
            if i < init.len() {
                assert(init[i] == events[i]);
            }
        }
    }
}

/// No stage that a publication reaches has passed over a failure.
proof fn lemma_no_failure_passed(overrides: Seq<Seq<char>>, events: Seq<EventView>)
    requires
        legal(overrides, events),
    ensures
        no_failure_passed(events, stage_after(overrides, events)),
    decreases events.len(),
{
    if events.len() > 0 {
        let init = events.drop_last();
        let stage = stage_after(overrides, init);
        let event = events.last();
        lemma_legal_prefix(overrides, events);
        lemma_no_failure_passed(overrides, init);
        lemma_no_failure_last(events);
        if tells_of_failure(event) && event !is ImagesSearched {
            law_failure_ends_the_publication(stage, event);
        } else {
            match (stage, event) {
                (
                    StageView::ImagesSought { rollout, accounts },
                    EventView::ImagesSearched(replies),
                ) => {
                    lemma_surveyed_passes_no_failure(
                        events,
                        SurveyView { rollout, accounts, pending: replies, copies: Seq::empty() },
                    );
                },
                (
                    StageView::TargetPermissionsNeeded { survey, target, image_id, public },
                    EventView::PermissionsListed(Ok(launch_permissions)),
                ) => {
                    lemma_surveyed_passes_no_failure(
                        events,
                        with_found(survey, target, image_id, public, launch_permissions),
                    );
                },
                _ => {},
            }
        }
    }
}

/// A publication succeeds only if none of its answers told of a failure.
pub proof fn law_success_means_no_failure(
    overrides: Seq<Seq<char>>,
    events: Seq<EventView>,
    amis: AmisView,
)
    requires
        legal(overrides, events),
        stage_after(overrides, events) matches StageView::Finished { outcome, .. } && outcome
            == Ok::<AmisView, AmiErrorView>(amis),
    ensures
        no_failure(events),
{
    lemma_no_failure_passed(overrides, events);
}

/// A publication that copies was told of no failure.
pub proof fn law_copies_follow_no_failure(overrides: Seq<Seq<char>>, events: Seq<EventView>)
    requires
        legal(overrides, events),
        stage_after(overrides, events) is CopiesNeeded,
    ensures
        no_failure(events),
{
    lemma_no_failure_passed(overrides, events);
}

/// Whether there is a reason for a publication to fail: an answer told of a failure, no region was
/// chosen, or the registration options name no architecture.
pub open spec fn has_reason_to_fail(overrides: Seq<Seq<char>>, events: Seq<EventView>) -> bool {
    ||| !no_failure(events)
    ||| (config_loaded(events) matches Some(config) && chosen_regions(overrides, config).len() == 0)
    ||| (amispec_rendered(events) matches Some(amispec) && amispec.architecture is None)
}

/// What a stage knows of the reasons to fail.
pub open spec fn with_reason(
    overrides: Seq<Seq<char>>,
    events: Seq<EventView>,
    stage: StageView,
) -> bool {
    match stage {
        StageView::ConfigNeeded { overrides: regions } => events.len() == 0 && regions == overrides,
        StageView::AmispecNeeded { .. } => events.len() == 1,
        StageView::TargetPublicNeeded { survey, .. } => {
            search_failed(survey.pending) ==> !no_failure(events)
        },
        StageView::TargetPermissionsNeeded { survey, .. } => {
            search_failed(survey.pending) ==> !no_failure(events)
        },
        StageView::Finished { outcome, .. } => {
            outcome is Err ==> has_reason_to_fail(overrides, events)
        },
        _ => true,
    }
}

/// A survey fails only where its search failed.
proof fn lemma_surveyed_with_reason(
    overrides: Seq<Seq<char>>,
    events: Seq<EventView>,
    survey: SurveyView,
)
    requires
        search_failed(survey.pending) ==> !no_failure(events),
    ensures
        with_reason(overrides, events, surveyed(survey)),
    decreases survey.pending.len(),
{
    if survey.pending.len() > 0 {
        let (target, reply) = survey.pending[0];
        let rest = SurveyView { pending: survey.pending.drop_first(), ..survey };
        if search_failed(rest.pending) {
            let i = choose|i: int|
                0 <= i < rest.pending.len() && (#[trigger] rest.pending[i]).1 is Err;
            assert(survey.pending[i + 1].1 is Err);
        }
        if reply matches Ok(None) {
            lemma_surveyed_with_reason(
                overrides,
                events,
                SurveyView { copies: survey.copies.push(target), ..rest },
            );
        }
    }
}

/// No stage that a publication reaches has failed without a reason.
proof fn lemma_with_reason(overrides: Seq<Seq<char>>, events: Seq<EventView>)
    requires
        legal(overrides, events),
    ensures
        with_reason(overrides, events, stage_after(overrides, events)),
    decreases events.len(),
{
    if events.len() > 0 {
        let init = events.drop_last();
        let stage = stage_after(overrides, init);
        let event = events.last();
        lemma_legal_prefix(overrides, events);
        lemma_with_reason(overrides, init);
        lemma_no_failure_last(events);
        match (stage, event) {
            (StageView::ImagesSought { rollout, accounts }, EventView::ImagesSearched(replies)) => {
                lemma_surveyed_with_reason(
                    overrides,
                    events,
                    SurveyView { rollout, accounts, pending: replies, copies: Seq::empty() },
                );
            },
            (
                StageView::TargetPermissionsNeeded { survey, target, image_id, public },
                EventView::PermissionsListed(Ok(launch_permissions)),
            ) => {
                lemma_surveyed_with_reason(
                    overrides,
                    events,
                    with_found(survey, target, image_id, public, launch_permissions),
                );
            },
            _ => {},
        }
    }
}

/// A publication fails only for a reason: where regions are chosen, the registration options name
/// an architecture and no answer tells of a failure, it succeeds when it ends.
pub proof fn law_no_failure_means_success(
    overrides: Seq<Seq<char>>,
    events: Seq<EventView>,
    outcome: Result<AmisView, AmiErrorView>,
)
    requires
        legal(overrides, events),
        stage_after(overrides, events) matches StageView::Finished { outcome: o, .. } && o
            == outcome,
        !has_reason_to_fail(overrides, events),
    ensures
        outcome is Ok,
{
    lemma_with_reason(overrides, events);
}

} // verus!
