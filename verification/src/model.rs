//! The rules of a publication: what each stage asks for, and which stage an answer leads to.

use crate::error::AmiErrorView;
use crate::identity::{account_ids_in, account_in, grants_of};
use crate::image::{placed, ImageView, LaunchPermissionView, RegionAccountView};
use crate::stage::{
    ActionView, AmispecView, CopyOutcomeView, CopyReplyView, CopyReportView, CopyRequestView,
    EventView, JobView, ModifyOptionsView, RegisteredIdsView, RolloutView, SearchReplyView,
    StageView, SurveyView,
};
use crate::target::{empty_config, planned, AwsConfigView, PlanView, RegionRoleView};
use vstd::prelude::*;

verus! {

/// Images by region and account.
pub type AmisView = Map<Seq<char>, Map<Seq<char>, ImageView>>;

/// A publication that ends with an error, before anything was copied.
pub open spec fn failed(error: AmiErrorView) -> StageView {
    StageView::Finished { outcome: Err(error), reports: Seq::empty() }
}

/// A publication that ends well, with nothing left to copy.
pub open spec fn complete(amis: AmisView) -> StageView {
    StageView::Finished { outcome: Ok(amis), reports: Seq::empty() }
}

/// The configuration decides where to publish.
pub open spec fn after_config(
    overrides: Seq<Seq<char>>,
    reply: Result<Option<AwsConfigView>, Seq<char>>,
) -> StageView {
    match reply {
        Err(source) => failed(AmiErrorView::Config { source }),
        Ok(config) => match planned(
            overrides,
            match config {
                Some(c) => c,
                None => empty_config(),
            },
        ) {
            Err(e) => failed(e),
            Ok(plan) => StageView::AmispecNeeded { plan },
        },
    }
}

/// The registration options name the image. They have to name an architecture.
pub open spec fn after_amispec(plan: PlanView, reply: Result<AmispecView, Seq<char>>) -> StageView {
    match reply {
        Err(source) => failed(AmiErrorView::Amispec { source }),
        Ok(amispec) => match amispec.architecture {
            None => failed(AmiErrorView::MissingArchitecture),
            Some(arch) => StageView::ImageSought {
                job: JobView {
                    source: plan.source,
                    targets: plan.targets,
                    name: amispec.name,
                    arch,
                    description: amispec.description,
                },
            },
        },
    }
}

/// The error of a search for the image of a job in a region.
pub open spec fn search_error(job: JobView, region: Seq<char>, source: Seq<char>) -> AmiErrorView {
    AmiErrorView::GetAmiId { name: job.name, arch: job.arch, region, source }
}

/// An image that exists is used. Where there is none, one is registered.
pub open spec fn after_search(
    job: JobView,
    reply: Result<Option<Seq<char>>, Seq<char>>,
) -> StageView {
    match reply {
        Err(source) => failed(search_error(job, job.source.region, source)),
        Ok(Some(image_id)) => StageView::SnapshotsNeeded { job, image_id },
        Ok(None) => StageView::RegistrationNeeded { job },
    }
}

/// The snapshots of the image that was found are kept with its ID.
pub open spec fn after_snapshots(
    job: JobView,
    image_id: Seq<char>,
    reply: Result<Seq<Seq<char>>, Seq<char>>,
) -> StageView {
    match reply {
        Err(source) => failed(
            AmiErrorView::GetSnapshots { image_id, region: job.source.region, source },
        ),
        Ok(snapshot_ids) => StageView::PublicNeeded {
            job,
            ids: RegisteredIdsView { image_id, snapshot_ids },
        },
    }
}

/// Whether the image that was found is public is kept for the record.
pub open spec fn after_public(
    job: JobView,
    ids: RegisteredIdsView,
    reply: Result<bool, Seq<char>>,
) -> StageView {
    match reply {
        Err(source) => failed(
            AmiErrorView::IsAmiPublic { image_id: ids.image_id, region: job.source.region, source },
        ),
        Ok(public) => StageView::PermissionsNeeded { job, ids, public },
    }
}

/// The launch permissions of the image that was found are kept for the record.
pub open spec fn after_permissions(
    job: JobView,
    ids: RegisteredIdsView,
    public: bool,
    reply: Result<Seq<LaunchPermissionView>, Seq<char>>,
) -> StageView {
    match reply {
        Err(source) => failed(
            AmiErrorView::DescribeImageAttribute {
                image_id: ids.image_id,
                region: job.source.region,
                source,
            },
        ),
        Ok(launch_permissions) => StageView::AccountNeeded {
            job,
            ids,
            already_registered: true,
            public,
            launch_permissions,
        },
    }
}

/// A new image is not public, and nobody else may launch it.
pub open spec fn after_registration(
    job: JobView,
    reply: Result<RegisteredIdsView, Seq<char>>,
) -> StageView {
    match reply {
        Err(source) => failed(
            AmiErrorView::RegisterImage {
                name: job.name,
                arch: job.arch,
                region: job.source.region,
                source,
            },
        ),
        Ok(ids) => StageView::AccountNeeded {
            job,
            ids,
            already_registered: false,
            public: false,
            launch_permissions: Seq::empty(),
        },
    }
}

/// The image at the source is recorded. Without targets, that is all.
pub open spec fn after_account(
    job: JobView,
    ids: RegisteredIdsView,
    already_registered: bool,
    public: bool,
    launch_permissions: Seq<LaunchPermissionView>,
    reply: Result<Option<Seq<char>>, Seq<char>>,
) -> StageView {
    match account_in(job.source.region, reply) {
        Err(e) => failed(e),
        Ok(account_id) => {
            let amis = placed(
                Map::empty(),
                job.source.region,
                account_id,
                ImageView {
                    id: ids.image_id,
                    name: job.name,
                    public: Some(public),
                    launch_permissions: Some(launch_permissions),
                },
            );
            if job.targets.len() == 0 {
                complete(amis)
            } else {
                StageView::AvailabilityNeeded {
                    rollout: RolloutView { job, ids, already_registered, account_id, amis },
                }
            }
        },
    }
}

/// Once the image is available, the accounts of the targets are resolved.
pub open spec fn after_wait(rollout: RolloutView, reply: Result<(), Seq<char>>) -> StageView {
    match reply {
        Err(source) => failed(
            AmiErrorView::WaitAmi {
                id: rollout.ids.image_id,
                region: rollout.job.source.region,
                source,
            },
        ),
        Ok(_) => StageView::AccountsNeeded { rollout },
    }
}

/// Access is granted only where some target's account is not the one that owns the image.
pub open spec fn after_accounts(rollout: RolloutView, replies: Seq<SearchReplyView>) -> StageView {
    match account_ids_in(replies) {
        Err(e) => failed(e),
        Ok(accounts) => if grants_of(accounts, rollout.account_id) =~= Set::empty() {
            StageView::ImagesSought { rollout, accounts }
        } else {
            StageView::SnapshotGrantNeeded { rollout, accounts }
        },
    }
}

/// Access to the snapshots comes before access to the image.
pub open spec fn after_snapshot_grant(
    rollout: RolloutView,
    accounts: Map<RegionRoleView, Seq<char>>,
    reply: Result<(), Seq<char>>,
) -> StageView {
    match reply {
        Err(source) => failed(
            AmiErrorView::GrantAccess {
                thing: "snapshots"@,
                region: rollout.job.source.region,
                source,
            },
        ),
        Ok(_) => StageView::ImageGrantNeeded { rollout, accounts },
    }
}

/// With access granted, the image is looked for at the targets.
pub open spec fn after_image_grant(
    rollout: RolloutView,
    accounts: Map<RegionRoleView, Seq<char>>,
    reply: Result<(), Seq<char>>,
) -> StageView {
    match reply {
        Err(source) => failed(
            AmiErrorView::GrantImageAccess {
                thing: "image"@,
                region: rollout.job.source.region,
                source,
            },
        ),
        Ok(_) => StageView::ImagesSought { rollout, accounts },
    }
}

/// The replies about the targets are looked at one by one, up to the first image that exists.
/// The targets without an image are to be copied to.
pub open spec fn surveyed(survey: SurveyView) -> StageView
    decreases survey.pending.len(),
{
    if survey.pending.len() == 0 {
        if survey.copies.len() == 0 {
            complete(survey.rollout.amis)
        } else {
            StageView::CopiesNeeded {
                rollout: survey.rollout,
                accounts: survey.accounts,
                copies: survey.copies,
            }
        }
    } else {
        let (target, reply) = survey.pending[0];
        let rest = SurveyView { pending: survey.pending.drop_first(), ..survey };
        match reply {
            Err(source) => failed(search_error(survey.rollout.job, target.region, source)),
            Ok(Some(image_id)) => StageView::TargetPublicNeeded { survey: rest, target, image_id },
            Ok(None) => surveyed(SurveyView { copies: survey.copies.push(target), ..rest }),
        }
    }
}

/// The start of a survey.
pub open spec fn after_searches(
    rollout: RolloutView,
    accounts: Map<RegionRoleView, Seq<char>>,
    replies: Seq<SearchReplyView>,
) -> StageView {
    surveyed(SurveyView { rollout, accounts, pending: replies, copies: Seq::empty() })
}

/// Whether the image of a target is public is kept for the record.
pub open spec fn after_target_public(
    survey: SurveyView,
    target: RegionRoleView,
    image_id: Seq<char>,
    reply: Result<bool, Seq<char>>,
) -> StageView {
    match reply {
        Err(source) => failed(
            AmiErrorView::IsAmiPublic { image_id, region: target.region, source },
        ),
        Ok(public) => StageView::TargetPermissionsNeeded { survey, target, image_id, public },
    }
}

/// A survey, with the image of a target recorded for the target's account.
pub open spec fn with_found(
    survey: SurveyView,
    target: RegionRoleView,
    image_id: Seq<char>,
    public: bool,
    launch_permissions: Seq<LaunchPermissionView>,
) -> SurveyView {
    SurveyView {
        rollout: RolloutView {
            amis: placed(
                survey.rollout.amis,
                target.region,
                survey.accounts[target],
                ImageView {
                    id: image_id,
                    name: survey.rollout.job.name,
                    public: Some(public),
                    launch_permissions: Some(launch_permissions),
                },
            ),
            ..survey.rollout
        },
        ..survey
    }
}

/// The image of a target is recorded for the target's account, and the survey goes on.
pub open spec fn after_target_permissions(
    survey: SurveyView,
    target: RegionRoleView,
    image_id: Seq<char>,
    public: bool,
    reply: Result<Seq<LaunchPermissionView>, Seq<char>>,
) -> StageView {
    match reply {
        Err(source) => failed(
            AmiErrorView::DescribeImageAttribute { image_id, region: target.region, source },
        ),
        Ok(launch_permissions) => surveyed(
            with_found(survey, target, image_id, public, launch_permissions),
        ),
    }
}

/// What is recorded of an image that was just copied: it is not public, and nobody else may
/// launch it.
pub open spec fn copied_image(name: Seq<char>, id: Seq<char>) -> ImageView {
    ImageView { id, name, public: Some(false), launch_permissions: Some(Seq::empty()) }
}

/// The images after a list of copies: each copy that gave an ID is recorded.
pub open spec fn with_copies(
    amis: AmisView,
    name: Seq<char>,
    accounts: Map<RegionRoleView, Seq<char>>,
    replies: Seq<CopyReplyView>,
) -> AmisView
    decreases replies.len(),
{
    if replies.len() == 0 {
        amis
    } else {
        let before = with_copies(amis, name, accounts, replies.drop_last());
        let (target, reply) = replies.last();
        match reply {
            Ok(Some(id)) => placed(
                before,
                target.region,
                accounts[target],
                copied_image(name, id),
            ),
            _ => before,
        }
    }
}

/// What is reported of a copy. A failure without a code is reported as unknown.
pub open spec fn report_of(
    accounts: Map<RegionRoleView, Seq<char>>,
    reply: CopyReplyView,
) -> CopyReportView {
    CopyReportView {
        at: RegionAccountView { region: reply.0.region, account_id: accounts[reply.0] },
        outcome: match reply.1 {
            Ok(Some(id)) => CopyOutcomeView::Registered(id),
            Ok(None) => CopyOutcomeView::NoImageId,
            Err(Some(code)) => CopyOutcomeView::Failed(code),
            Err(None) => CopyOutcomeView::Failed("unknown"@),
        },
    }
}

/// Whether a copy gave an ID.
pub open spec fn gave_id(reply: CopyReplyView) -> bool {
    reply.1 matches Ok(Some(_))
}

/// Every copy is reported. The publication succeeds when each of them gave an ID.
pub open spec fn after_copies(
    rollout: RolloutView,
    accounts: Map<RegionRoleView, Seq<char>>,
    replies: Seq<CopyReplyView>,
) -> StageView {
    StageView::Finished {
        outcome: if forall|i: int| 0 <= i < replies.len() ==> gave_id(#[trigger] replies[i]) {
            Ok(with_copies(rollout.amis, rollout.job.name, accounts, replies))
        } else {
            Err(AmiErrorView::AmiCopy)
        },
        reports: replies.map_values(|reply: CopyReplyView| report_of(accounts, reply)),
    }
}

/// The stage that an answer leads to.
pub open spec fn next(stage: StageView, event: EventView) -> StageView {
    match (stage, event) {
        (StageView::ConfigNeeded { overrides }, EventView::ConfigLoaded(reply)) => {
            after_config(overrides, reply)
        },
        (StageView::AmispecNeeded { plan }, EventView::AmispecRendered(reply)) => {
            after_amispec(plan, reply)
        },
        (StageView::ImageSought { job }, EventView::ImageSearched(reply)) => {
            after_search(job, reply)
        },
        (StageView::SnapshotsNeeded { job, image_id }, EventView::SnapshotsListed(reply)) => {
            after_snapshots(job, image_id, reply)
        },
        (StageView::PublicNeeded { job, ids }, EventView::PublicChecked(reply)) => {
            after_public(job, ids, reply)
        },
        (
            StageView::PermissionsNeeded { job, ids, public },
            EventView::PermissionsListed(reply),
        ) => after_permissions(job, ids, public, reply),
        (StageView::RegistrationNeeded { job }, EventView::ImageRegistered(reply)) => {
            after_registration(job, reply)
        },
        (
            StageView::AccountNeeded { job, ids, already_registered, public, launch_permissions },
            EventView::AccountResolved(reply),
        ) => after_account(job, ids, already_registered, public, launch_permissions, reply),
        (StageView::AvailabilityNeeded { rollout }, EventView::ImageAwaited(reply)) => {
            after_wait(rollout, reply)
        },
        (StageView::AccountsNeeded { rollout }, EventView::AccountsResolved(replies)) => {
            after_accounts(rollout, replies)
        },
        (
            StageView::SnapshotGrantNeeded { rollout, accounts },
            EventView::AccessGranted(reply),
        ) => after_snapshot_grant(rollout, accounts, reply),
        (StageView::ImageGrantNeeded { rollout, accounts }, EventView::AccessGranted(reply)) => {
            after_image_grant(rollout, accounts, reply)
        },
        (StageView::ImagesSought { rollout, accounts }, EventView::ImagesSearched(replies)) => {
            after_searches(rollout, accounts, replies)
        },
        (
            StageView::TargetPublicNeeded { survey, target, image_id },
            EventView::PublicChecked(reply),
        ) => after_target_public(survey, target, image_id, reply),
        (
            StageView::TargetPermissionsNeeded { survey, target, image_id, public },
            EventView::PermissionsListed(reply),
        ) => after_target_permissions(survey, target, image_id, public, reply),
        (
            StageView::CopiesNeeded { rollout, accounts, copies },
            EventView::ImagesCopied(replies),
        ) => after_copies(rollout, accounts, replies),
        _ => stage,
    }
}

/// Whether a list of replies is about exactly the targets that were asked about.
pub open spec fn answers<R>(asked: Seq<RegionRoleView>, replies: Seq<(RegionRoleView, R)>) -> bool {
    &&& forall|t: RegionRoleView| #[trigger]
        asked.contains(t) ==> exists|i: int|
            0 <= i < replies.len() && (#[trigger] replies[i]).0 == t
    &&& forall|i: int| 0 <= i < replies.len() ==> asked.contains((#[trigger] replies[i]).0)
}

/// Whether an event answers what a stage asks for.
pub open spec fn fits(stage: StageView, event: EventView) -> bool {
    match (stage, event) {
        (StageView::ConfigNeeded { .. }, EventView::ConfigLoaded(_)) => true,
        (StageView::AmispecNeeded { .. }, EventView::AmispecRendered(_)) => true,
        (StageView::ImageSought { .. }, EventView::ImageSearched(_)) => true,
        (StageView::SnapshotsNeeded { .. }, EventView::SnapshotsListed(_)) => true,
        (StageView::PublicNeeded { .. }, EventView::PublicChecked(_)) => true,
        (StageView::PermissionsNeeded { .. }, EventView::PermissionsListed(_)) => true,
        (StageView::RegistrationNeeded { .. }, EventView::ImageRegistered(_)) => true,
        (StageView::AccountNeeded { .. }, EventView::AccountResolved(_)) => true,
        (StageView::AvailabilityNeeded { .. }, EventView::ImageAwaited(_)) => true,
        (StageView::AccountsNeeded { rollout }, EventView::AccountsResolved(replies)) => {
            answers(rollout.job.targets, replies)
        },
        (StageView::SnapshotGrantNeeded { .. }, EventView::AccessGranted(_)) => true,
        (StageView::ImageGrantNeeded { .. }, EventView::AccessGranted(_)) => true,
        (StageView::ImagesSought { rollout, .. }, EventView::ImagesSearched(replies)) => {
            answers(rollout.job.targets, replies)
        },
        (StageView::TargetPublicNeeded { .. }, EventView::PublicChecked(_)) => true,
        (StageView::TargetPermissionsNeeded { .. }, EventView::PermissionsListed(_)) => true,
        (StageView::CopiesNeeded { copies, .. }, EventView::ImagesCopied(replies)) => {
            answers(copies, replies)
        },
        _ => false,
    }
}

/// Whether each target of a list has an account.
pub open spec fn all_known(
    accounts: Map<RegionRoleView, Seq<char>>,
    targets: Seq<RegionRoleView>,
) -> bool {
    forall|t: RegionRoleView| #[trigger] targets.contains(t) ==> accounts.contains_key(t)
}

/// Whether a survey knows the account of every target that it is about.
pub open spec fn survey_known(survey: SurveyView) -> bool {
    &&& all_known(survey.accounts, survey.rollout.job.targets)
    &&& all_known(survey.accounts, survey.copies)
    &&& forall|i: int|
        0 <= i < survey.pending.len() ==> survey.accounts.contains_key(
            (#[trigger] survey.pending[i]).0,
        )
}

/// What holds of every stage: where the accounts have been resolved, that of each target is known.
pub open spec fn well_formed(stage: StageView) -> bool {
    match stage {
        StageView::SnapshotGrantNeeded { rollout, accounts } => {
            all_known(accounts, rollout.job.targets)
        },
        StageView::ImageGrantNeeded { rollout, accounts } => {
            all_known(accounts, rollout.job.targets)
        },
        StageView::ImagesSought { rollout, accounts } => all_known(accounts, rollout.job.targets),
        StageView::TargetPublicNeeded { survey, target, .. } => {
            survey_known(survey) && survey.accounts.contains_key(target)
        },
        StageView::TargetPermissionsNeeded { survey, target, .. } => {
            survey_known(survey) && survey.accounts.contains_key(target)
        },
        StageView::CopiesNeeded { rollout, accounts, copies } => {
            all_known(accounts, rollout.job.targets) && all_known(accounts, copies)
        },
        _ => true,
    }
}

/// Those who are granted access to the image at the source.
pub open spec fn grant_options(
    accounts: Map<RegionRoleView, Seq<char>>,
    account_id: Seq<char>,
) -> ModifyOptionsView {
    ModifyOptionsView {
        user_ids: grants_of(accounts, account_id),
        group_names: Set::empty(),
        organization_arns: Set::empty(),
        organizational_unit_arns: Set::empty(),
    }
}

/// The request that copies the image at the source to a target, with its tags.
pub open spec fn copy_request(rollout: RolloutView, target: RegionRoleView) -> CopyRequestView {
    CopyRequestView {
        target,
        description: rollout.job.description,
        name: rollout.job.name,
        source_image_id: rollout.ids.image_id,
        source_region: rollout.job.source.region,
        copy_image_tags: true,
    }
}

/// What a stage asks for. An image that was just registered has to be seen available more often
/// than one that was there before.
pub open spec fn action_of(stage: StageView) -> ActionView {
    match stage {
        StageView::ConfigNeeded { .. } => ActionView::LoadConfig,
        StageView::AmispecNeeded { plan } => ActionView::RenderAmispec { at: plan.source },
        StageView::ImageSought { job } => {
            ActionView::FindImage { at: job.source, name: job.name, arch: job.arch }
        },
        StageView::SnapshotsNeeded { job, image_id } => {
            ActionView::ListSnapshots { at: job.source, image_id }
        },
        StageView::PublicNeeded { job, ids } => {
            ActionView::CheckPublic { at: job.source, image_id: ids.image_id }
        },
        StageView::PermissionsNeeded { job, ids, .. } => {
            ActionView::ListPermissions { at: job.source, image_id: ids.image_id }
        },
        StageView::RegistrationNeeded { job } => ActionView::RegisterImage { at: job.source },
        StageView::AccountNeeded { job, .. } => ActionView::ResolveAccount { at: job.source },
        StageView::AvailabilityNeeded { rollout } => ActionView::AwaitImage {
            at: rollout.job.source,
            image_id: rollout.ids.image_id,
            state: "available"@,
            successes: if rollout.already_registered {
                1
            } else {
                3
            },
        },
        StageView::AccountsNeeded { rollout } => {
            ActionView::ResolveAccounts { targets: rollout.job.targets }
        },
        StageView::SnapshotGrantNeeded { rollout, accounts } => ActionView::GrantSnapshots {
            at: rollout.job.source,
            options: grant_options(accounts, rollout.account_id),
            snapshot_ids: rollout.ids.snapshot_ids,
        },
        StageView::ImageGrantNeeded { rollout, accounts } => ActionView::GrantImage {
            at: rollout.job.source,
            options: grant_options(accounts, rollout.account_id),
            image_id: rollout.ids.image_id,
        },
        StageView::ImagesSought { rollout, .. } => ActionView::FindImages {
            targets: rollout.job.targets,
            name: rollout.job.name,
            arch: rollout.job.arch,
        },
        StageView::TargetPublicNeeded { target, image_id, .. } => {
            ActionView::CheckPublic { at: target, image_id }
        },
        StageView::TargetPermissionsNeeded { target, image_id, .. } => {
            ActionView::ListPermissions { at: target, image_id }
        },
        StageView::CopiesNeeded { rollout, copies, .. } => ActionView::CopyImages {
            requests: copies.map_values(|target: RegionRoleView| copy_request(rollout, target)),
        },
        StageView::Finished { .. } => ActionView::Finish,
    }
}

/// A survey leads to a stage that is well formed.
pub proof fn lemma_surveyed_well_formed(survey: SurveyView)
    requires
        survey_known(survey),
    ensures
        well_formed(surveyed(survey)),
    decreases survey.pending.len(),
{
    if survey.pending.len() > 0 {
        let (target, reply) = survey.pending[0];
        let rest = SurveyView { pending: survey.pending.drop_first(), ..survey };
        assert(survey_known(rest)) by {
            assert forall|i: int| 0 <= i < rest.pending.len() implies rest.accounts.contains_key(
                (#[trigger] rest.pending[i]).0,
            ) by {
                assert(rest.pending[i] == survey.pending[i + 1]);
            }
        }
        if reply matches Ok(None) {
            let onward = SurveyView { copies: survey.copies.push(target), ..rest };
            assert forall|t: RegionRoleView| #[trigger] onward.copies.contains(t) implies
                onward.accounts.contains_key(t) by {
                let i = onward.copies.index_of(t);
                if i < survey.copies.len() {
                    assert(survey.copies[i] == t);
                    assert(survey.copies.contains(t));
                }
            }
            lemma_surveyed_well_formed(onward);
        }
    }
}

/// The targets of a list of responses that gives account IDs are those of the accounts.
pub proof fn lemma_account_ids_domain(replies: Seq<SearchReplyView>)
    ensures
        account_ids_in(replies) matches Ok(accounts) ==> forall|t: RegionRoleView| #[trigger]
            accounts.contains_key(t) <==> exists|i: int|
                0 <= i < replies.len() && (#[trigger] replies[i]).0 == t,
    decreases replies.len(),
{
    if replies.len() > 0 {
        let init = replies.drop_last();
        lemma_account_ids_domain(init);
        if let Ok(accounts) = account_ids_in(replies) {
            let before = account_ids_in(init)->Ok_0;
            assert forall|t: RegionRoleView| #[trigger] accounts.contains_key(t) implies exists|
                i: int,
            |
                0 <= i < replies.len() && (#[trigger] replies[i]).0 == t by {
                if t == replies.last().0 {
                    assert(replies[replies.len() - 1].0 == t);
                } else {
                    assert(before.contains_key(t));
                    let i = choose|i: int| 0 <= i < init.len() && (#[trigger] init[i]).0 == t;
                    assert(replies[i].0 == t);
                }
            }
            assert forall|t: RegionRoleView|
                (exists|i: int| 0 <= i < replies.len() && (#[trigger] replies[i]).0 == t) implies
                #[trigger] accounts.contains_key(t) by {
                let i = choose|i: int| 0 <= i < replies.len() && (#[trigger] replies[i]).0 == t;
                if i < init.len() {
                    assert(init[i].0 == t);
                    assert(before.contains_key(t));
                }
            }
        }
    }
}

/// Every answer that fits leads from a well formed stage to a well formed stage.
pub proof fn lemma_next_well_formed(stage: StageView, event: EventView)
    requires
        well_formed(stage),
        fits(stage, event),
    ensures
        well_formed(next(stage, event)),
{
    match (stage, event) {
        (StageView::AccountsNeeded { rollout }, EventView::AccountsResolved(replies)) => {
            lemma_account_ids_domain(replies);
        },
        (StageView::ImagesSought { rollout, accounts }, EventView::ImagesSearched(replies)) => {
            lemma_surveyed_well_formed(
                SurveyView { rollout, accounts, pending: replies, copies: Seq::empty() },
            );
        },
        (
            StageView::TargetPermissionsNeeded { survey, target, image_id, public },
            EventView::PermissionsListed(Ok(launch_permissions)),
        ) => {
            lemma_surveyed_well_formed(
                with_found(survey, target, image_id, public, launch_permissions),
            );
        },
        _ => {},
    }
}

} // verus!
