//! The course of a publication.

use crate::assoc::Key;
use crate::error::AmiError;
use crate::identity::{
    account_ids_view, get_account_id, get_account_ids, grant_account_ids, replies_view,
    reply_view, AccountIds,
};
use crate::image::{AccountId, Image, LaunchPermissionDef, RegionAccount, RegionAccountImageMap};
use crate::model::{
    action_of, after_account, after_accounts, after_amispec, after_config, after_copies,
    after_image_grant, after_permissions, after_public, after_registration, after_search,
    after_searches, after_snapshot_grant, after_snapshots, after_target_permissions,
    after_target_public, after_wait, answers, complete, copied_image, copy_request, failed, fits,
    gave_id, grant_options, lemma_next_well_formed, next, report_of, surveyed, well_formed,
    with_copies,
};
use crate::stage::{
    Action, Amispec, CopyOutcome, CopyReplies, CopyReplyView, CopyReport, CopyRequest, Event, Job,
    ModifyOptions, RegisteredIds, Rollout, SearchReplies, Stage, StageView, Survey,
    SurveyView,
};
use crate::target::{plan, AwsConfig, Plan, RegionRole, RegionRoleView};
use vstd::prelude::*;

verus! {

/// Ends a publication with an error, before anything was copied.
fn fail(error: AmiError) -> (stage: Stage)
    ensures
        stage@ == failed(error@),
{
    let reports: Vec<CopyReport> = Vec::new();
    assert(reports.deep_view() =~= Seq::empty());
    Stage::Finished { outcome: Err(error), reports }
}

/// Ends a publication well, with nothing left to copy.
fn finish(amis: RegionAccountImageMap) -> (stage: Stage)
    ensures
        stage@ == complete(amis@),
{
    let reports: Vec<CopyReport> = Vec::new();
    assert(reports.deep_view() =~= Seq::empty());
    Stage::Finished { outcome: Ok(amis), reports }
}

/// Decides where to publish.
fn on_config(overrides: Vec<String>, reply: Result<Option<AwsConfig>, String>) -> (stage: Stage)
    ensures
        stage@ == after_config(overrides.deep_view(), reply_view(reply)),
{
    match reply {
        Err(source) => fail(AmiError::Config { source }),
        Ok(config) => {
            let config = match config {
                Some(config) => config,
                None => AwsConfig::default(),
            };
            match plan(overrides, config) {
                Err(e) => fail(e),
                Ok(plan) => Stage::AmispecNeeded { plan },
            }
        },
    }
}

/// Learns what the image is called.
fn on_amispec(plan: Plan, reply: Result<Amispec, String>) -> (stage: Stage)
    ensures
        stage@ == after_amispec(plan@, reply_view(reply)),
{
    match reply {
        Err(source) => fail(AmiError::Amispec { source }),
        Ok(amispec) => match amispec.architecture {
            None => fail(AmiError::MissingArchitecture),
            Some(arch) => Stage::ImageSought {
                job: Job {
                    source: plan.source,
                    targets: plan.targets,
                    name: amispec.name,
                    arch,
                    description: amispec.description,
                },
            },
        },
    }
}

/// Decides whether the image has to be registered.
fn on_search(job: Job, reply: Result<Option<String>, String>) -> (stage: Stage)
    ensures
        stage@ == after_search(job@, reply_view(reply)),
{
    match reply {
        Err(source) => fail(
            AmiError::GetAmiId {
                name: job.name,
                arch: job.arch,
                region: job.source.region,
                source,
            },
        ),
        Ok(Some(image_id)) => Stage::SnapshotsNeeded { job, image_id },
        Ok(None) => Stage::RegistrationNeeded { job },
    }
}

/// Takes note of the snapshots of the image that was found.
fn on_snapshots(job: Job, image_id: String, reply: Result<Vec<String>, String>) -> (stage: Stage)
    ensures
        stage@ == after_snapshots(job@, image_id@, reply_view(reply)),
{
    match reply {
        Err(source) => fail(
            AmiError::GetSnapshots { image_id, region: job.source.region, source },
        ),
        Ok(snapshot_ids) => Stage::PublicNeeded {
            job,
            ids: RegisteredIds { image_id, snapshot_ids },
        },
    }
}

/// Takes note of whether the image that was found is public.
fn on_public(job: Job, ids: RegisteredIds, reply: Result<bool, String>) -> (stage: Stage)
    ensures
        stage@ == after_public(job@, ids@, reply_view(reply)),
{
    match reply {
        Err(source) => fail(
            AmiError::IsAmiPublic { image_id: ids.image_id, region: job.source.region, source },
        ),
        Ok(public) => Stage::PermissionsNeeded { job, ids, public },
    }
}

/// Takes note of the launch permissions of the image that was found.
fn on_permissions(
    job: Job,
    ids: RegisteredIds,
    public: bool,
    reply: Result<Vec<LaunchPermissionDef>, String>,
) -> (stage: Stage)
    ensures
        stage@ == after_permissions(job@, ids@, public, reply_view(reply)),
{
    match reply {
        Err(source) => fail(
            AmiError::DescribeImageAttribute {
                image_id: ids.image_id,
                region: job.source.region,
                source,
            },
        ),
        Ok(launch_permissions) => Stage::AccountNeeded {
            job,
            ids,
            already_registered: true,
            public,
            launch_permissions,
        },
    }
}

/// Takes note of the image that was registered.
fn on_registration(job: Job, reply: Result<RegisteredIds, String>) -> (stage: Stage)
    ensures
        stage@ == after_registration(job@, reply_view(reply)),
{
    match reply {
        Err(source) => fail(
            AmiError::RegisterImage {
                name: job.name,
                arch: job.arch,
                region: job.source.region,
                source,
            },
        ),
        Ok(ids) => {
            let launch_permissions: Vec<LaunchPermissionDef> = Vec::new();
            assert(launch_permissions.deep_view() =~= Seq::empty());
            Stage::AccountNeeded {
                job,
                ids,
                already_registered: false,
                public: false,
                launch_permissions,
            }
        },
    }
}

/// Records the image at the source.
fn on_account(
    job: Job,
    ids: RegisteredIds,
    already_registered: bool,
    public: bool,
    launch_permissions: Vec<LaunchPermissionDef>,
    reply: Result<Option<String>, String>,
) -> (stage: Stage)
    ensures
        stage@ == after_account(
            job@,
            ids@,
            already_registered,
            public,
            launch_permissions.deep_view(),
            reply_view(reply),
        ),
{
    match get_account_id(job.source.region.as_str(), reply) {
        Err(e) => fail(e),
        Ok(account_id) => {
            let mut amis = RegionAccountImageMap::new();
            let image = Image::new(
                ids.image_id.as_str(),
                job.name.as_str(),
                Some(public),
                Some(launch_permissions),
            );
            amis.insert(job.source.region.clone(), account_id.clone(), image);
            if job.targets.len() == 0 {
                finish(amis)
            } else {
                Stage::AvailabilityNeeded {
                    rollout: Rollout { job, ids, already_registered, account_id, amis },
                }
            }
        },
    }
}

/// Goes on to the targets, once the image is available.
fn on_wait(rollout: Rollout, reply: Result<(), String>) -> (stage: Stage)
    ensures
        stage@ == after_wait(rollout@, reply_view(reply)),
{
    match reply {
        Err(source) => fail(
            AmiError::WaitAmi {
                id: rollout.ids.image_id,
                region: rollout.job.source.region,
                source,
            },
        ),
        Ok(_) => Stage::AccountsNeeded { rollout },
    }
}

/// Decides whether other accounts need access to the image.
fn on_accounts(rollout: Rollout, replies: SearchReplies) -> (stage: Stage)
    ensures
        stage@ == after_accounts(rollout@, replies_view(replies@)),
{
    match get_account_ids(replies) {
        Err(e) => fail(e),
        Ok(accounts) => {
            let grants = grant_account_ids(&accounts, &rollout.account_id);
            if grants.len() == 0 {
                assert(grants.deep_view().to_set() =~= Set::empty());
                Stage::ImagesSought { rollout, accounts }
            } else {
                assert(grants.deep_view().to_set().contains(grants.deep_view()[0]));
                Stage::SnapshotGrantNeeded { rollout, accounts }
            }
        },
    }
}

/// Goes on to the image, once access to its snapshots is granted.
fn on_snapshot_grant(
    rollout: Rollout,
    accounts: AccountIds,
    reply: Result<(), String>,
) -> (stage: Stage)
    ensures
        stage@ == after_snapshot_grant(rollout@, account_ids_view(accounts@), reply_view(reply)),
{
    match reply {
        Err(source) => fail(
            AmiError::GrantAccess {
                thing: "snapshots".to_owned(),
                region: rollout.job.source.region,
                source,
            },
        ),
        Ok(_) => Stage::ImageGrantNeeded { rollout, accounts },
    }
}

/// Goes on to the search, once access to the image is granted.
fn on_image_grant(
    rollout: Rollout,
    accounts: AccountIds,
    reply: Result<(), String>,
) -> (stage: Stage)
    ensures
        stage@ == after_image_grant(rollout@, account_ids_view(accounts@), reply_view(reply)),
{
    match reply {
        Err(source) => fail(
            AmiError::GrantImageAccess {
                thing: "image".to_owned(),
                region: rollout.job.source.region,
                source,
            },
        ),
        Ok(_) => Stage::ImagesSought { rollout, accounts },
    }
}

/// Looks at the replies about the targets, up to the first image that exists.
fn look_through(survey: Survey) -> (stage: Stage)
    ensures
        stage@ == surveyed(survey@),
{
    let ghost whole = survey@;
    let Survey { rollout, accounts, pending, copies } = survey;
    let mut pending = pending;
    let mut copies = copies;
    while pending.len() > 0
        invariant
            whole == survey@,
            surveyed(whole) == surveyed(
                SurveyView {
                    rollout: rollout@,
                    accounts: account_ids_view(accounts@),
                    pending: replies_view(pending@),
                    copies: copies.deep_view(),
                },
            ),
        decreases pending@.len(),
    {
        let ghost before = replies_view(pending@);
        let (target, reply) = pending.remove(0);
        proof {
            assert(before[0] == (target@, reply_view(reply)));
            assert(replies_view(pending@) =~= before.drop_first());
        }
        match reply {
            Err(source) => {
                return fail(
                    AmiError::GetAmiId {
                        name: rollout.job.name,
                        arch: rollout.job.arch,
                        region: target.region,
                        source,
                    },
                );
            },
            Ok(Some(image_id)) => {
                return Stage::TargetPublicNeeded {
                    survey: Survey { rollout, accounts, pending, copies },
                    target,
                    image_id,
                };
            },
            Ok(None) => {
                let ghost found = copies.deep_view();
                copies.push(target);
                assert(copies.deep_view() =~= found.push(target@));
            },
        }
    }
    if copies.len() == 0 {
        finish(rollout.amis)
    } else {
        Stage::CopiesNeeded { rollout, accounts, copies }
    }
}

/// Looks at the replies about the targets from the start.
fn on_searches(rollout: Rollout, accounts: AccountIds, replies: SearchReplies) -> (stage: Stage)
    ensures
        stage@ == after_searches(rollout@, account_ids_view(accounts@), replies_view(replies@)),
{
    let copies: Vec<RegionRole> = Vec::new();
    assert(copies.deep_view() =~= Seq::empty());
    look_through(Survey { rollout, accounts, pending: replies, copies })
}

/// Takes note of whether the image of a target is public.
fn on_target_public(
    survey: Survey,
    target: RegionRole,
    image_id: String,
    reply: Result<bool, String>,
) -> (stage: Stage)
    ensures
        stage@ == after_target_public(survey@, target@, image_id@, reply_view(reply)),
{
    match reply {
        Err(source) => fail(
            AmiError::IsAmiPublic { image_id, region: target.region, source },
        ),
        Ok(public) => Stage::TargetPermissionsNeeded { survey, target, image_id, public },
    }
}

/// A copy of the account ID of a target.
fn account_of(accounts: &AccountIds, target: &RegionRole) -> (account_id: AccountId)
    requires
        accounts@.contains_key(target@),
    ensures
        account_id@ == account_ids_view(accounts@)[target@],
{
    match accounts.get(target) {
        Some(account_id) => account_id.clone(),
        None => String::new(),
    }
}

/// Records the image of a target, and looks at the replies after it.
fn on_target_permissions(
    survey: Survey,
    target: RegionRole,
    image_id: String,
    public: bool,
    reply: Result<Vec<LaunchPermissionDef>, String>,
) -> (stage: Stage)
    requires
        survey@.accounts.contains_key(target@),
    ensures
        stage@ == after_target_permissions(
            survey@,
            target@,
            image_id@,
            public,
            reply_view(reply),
        ),
{
    match reply {
        Err(source) => fail(
            AmiError::DescribeImageAttribute { image_id, region: target.region, source },
        ),
        Ok(launch_permissions) => {
            let mut survey = survey;
            let account_id = account_of(&survey.accounts, &target);
            let image = Image::new(
                image_id.as_str(),
                survey.rollout.job.name.as_str(),
                Some(public),
                Some(launch_permissions),
            );
            survey.rollout.amis.insert(target.region, account_id, image);
            look_through(survey)
        },
    }
}

/// Records the copies that gave an ID, and reports all of them.
fn on_copies(rollout: Rollout, accounts: AccountIds, replies: CopyReplies) -> (stage: Stage)
    requires
        forall|i: int|
            0 <= i < replies@.len() ==> accounts@.contains_key((#[trigger] replies@[i]).0@),
    ensures
        stage@ == after_copies(rollout@, account_ids_view(accounts@), replies_view(replies@)),
{
    let ghost all = replies_view(replies@);
    let ghost known = account_ids_view(accounts@);
    let ghost name = rollout.job.name@;
    let ghost first = rollout.amis@;
    let mut amis = rollout.amis;
    let mut saw_error = false;
    let mut reports: Vec<CopyReport> = Vec::new();
    for entry in it: replies.into_iter()
        invariant
            it.seq() == replies@,
            all == replies_view(replies@),
            known == account_ids_view(accounts@),
            name == rollout.job.name@,
            forall|i: int|
                0 <= i < replies@.len() ==> accounts@.contains_key((#[trigger] replies@[i]).0@),
            amis@ == with_copies(first, name, known, all.take(it.index() as int)),
            saw_error == exists|i: int| 0 <= i < it.index() && !gave_id(#[trigger] all[i]),
            reports@.len() == it.index(),
            forall|i: int|
                0 <= i < reports@.len() ==> (#[trigger] reports@[i])@ == report_of(known, all[i]),
    {
        let ghost i = it.index() as int;
        let ghost seen = saw_error;
        proof {
            assert(all.take(i + 1).drop_last() =~= all.take(i));
            assert(all[i] == (entry.0@, reply_view(entry.1)));
            assert(accounts@.contains_key(replies@[i].0@));
        }
        let (target, reply) = entry;
        let account_id = account_of(&accounts, &target);
        let outcome = match reply {
            Ok(Some(image_id)) => {
                let launch_permissions: Vec<LaunchPermissionDef> = Vec::new();
                assert(launch_permissions.deep_view() =~= Seq::empty());
                let image = Image::new(
                    image_id.as_str(),
                    rollout.job.name.as_str(),
                    Some(false),
                    Some(launch_permissions),
                );
                assert(image@ == copied_image(name, image_id@));
                amis.insert(target.region.clone(), account_id.clone(), image);
                CopyOutcome::Registered(image_id)
            },
            Ok(None) => {
                saw_error = true;
                CopyOutcome::NoImageId
            },
            Err(code) => {
                saw_error = true;
                CopyOutcome::Failed(
                    match code {
                        Some(code) => code,
                        None => "unknown".to_owned(),
                    },
                )
            },
        };
        reports.push(
            CopyReport { at: RegionAccount { region: target.region, account_id }, outcome },
        );
        proof {
            if !gave_id(all[i]) {
                assert(saw_error);
            } else {
                assert(saw_error == seen);
            }
        }
    }
    proof {
        assert(all.take(all.len() as int) =~= all);
        assert(reports.deep_view() =~= all.map_values(
            |reply: CopyReplyView| report_of(known, reply),
        ));
    }
    let outcome = if saw_error {
        Err(AmiError::AmiCopy)
    } else {
        Ok(amis)
    };
    Stage::Finished { outcome, reports }
}

/// A copy of a list of targets.
fn clone_targets(targets: &Vec<RegionRole>) -> (copy: Vec<RegionRole>)
    ensures
        copy.deep_view() == targets.deep_view(),
{
    let mut copy: Vec<RegionRole> = Vec::new();
    let mut i: usize = 0;
    while i < targets.len()
        invariant
            i <= targets@.len(),
            copy.deep_view() == targets.deep_view().take(i as int),
        decreases targets@.len() - i,
    {
        let ghost before = copy.deep_view();
        copy.push(targets[i].clone());
        proof {
            assert(copy.deep_view() =~= before.push(targets.deep_view()[i as int]));
            assert(copy.deep_view() =~= targets.deep_view().take(i + 1));
        }
        i += 1;
    }
    assert(targets.deep_view().take(i as int) =~= targets.deep_view());
    copy
}

/// A copy of a list of texts.
fn clone_texts(texts: &Vec<String>) -> (copy: Vec<String>)
    ensures
        copy.deep_view() == texts.deep_view(),
{
    let copy = texts.clone();
    assert(copy.deep_view() =~= texts.deep_view());
    copy
}

/// Those who are granted access to the image at the source.
fn options_for(accounts: &AccountIds, account_id: &String) -> (options: ModifyOptions)
    ensures
        options@ == grant_options(account_ids_view(accounts@), account_id@),
        options.user_ids.deep_view().no_duplicates(),
{
    let options = ModifyOptions {
        user_ids: grant_account_ids(accounts, account_id),
        group_names: Vec::new(),
        organization_arns: Vec::new(),
        organizational_unit_arns: Vec::new(),
    };
    proof {
        assert(options@.group_names =~= Set::empty());
        assert(options@.organization_arns =~= Set::empty());
        assert(options@.organizational_unit_arns =~= Set::empty());
    }
    options
}

/// The requests that copy the image at the source to the targets that lack it.
fn copy_requests(rollout: &Rollout, copies: &Vec<RegionRole>) -> (requests: Vec<CopyRequest>)
    ensures
        requests.deep_view() == copies.deep_view().map_values(
            |target: RegionRoleView| copy_request(rollout@, target),
        ),
{
    let mut requests: Vec<CopyRequest> = Vec::new();
    let mut i: usize = 0;
    while i < copies.len()
        invariant
            i <= copies@.len(),
            requests@.len() == i,
            forall|j: int|
                0 <= j < i ==> (#[trigger] requests@[j])@ == copy_request(
                    rollout@,
                    copies.deep_view()[j],
                ),
        decreases copies@.len() - i,
    {
        requests.push(
            CopyRequest {
                target: copies[i].clone(),
                description: match &rollout.job.description {
                    Some(text) => Some(text.clone()),
                    None => None,
                },
                name: rollout.job.name.clone(),
                source_image_id: rollout.ids.image_id.clone(),
                source_region: rollout.job.source.region.clone(),
                copy_image_tags: true,
            },
        );
        i += 1;
    }
    assert(requests.deep_view() =~= copies.deep_view().map_values(
        |target: RegionRoleView| copy_request(rollout@, target),
    ));
    requests
}

/// Whether a list of replies is about exactly the targets that were asked about.
fn are_answers<R: DeepView, E: DeepView>(
    asked: &Vec<RegionRole>,
    replies: &Vec<(RegionRole, Result<R, E>)>,
) -> (fit: bool)
    ensures
        fit == answers(asked.deep_view(), replies_view(replies@)),
{
    let ghost targets = asked.deep_view();
    let ghost all = replies_view(replies@);
    let mut i: usize = 0;
    while i < asked.len()
        invariant
            i <= asked@.len(),
            targets == asked.deep_view(),
            all == replies_view(replies@),
            forall|k: int|
                0 <= k < i ==> exists|j: int|
                    0 <= j < all.len() && (#[trigger] all[j]).0 == #[trigger] targets[k],
        decreases asked@.len() - i,
    {
        let mut found = false;
        let mut j: usize = 0;
        while j < replies.len()
            invariant
                i < asked@.len(),
                j <= replies@.len(),
                targets == asked.deep_view(),
                all == replies_view(replies@),
                found == exists|k: int|
                    0 <= k < j && (#[trigger] all[k]).0 == targets[i as int],
            decreases replies@.len() - j,
        {
            assert(all[j as int].0 == replies@[j as int].0@);
            if replies[j].0.same_key(&asked[i]) {
                found = true;
            }
            j += 1;
        }
        if !found {
            assert(targets.contains(targets[i as int]));
            return false;
        }
        i += 1;
    }
    let mut j: usize = 0;
    while j < replies.len()
        invariant
            j <= replies@.len(),
            targets == asked.deep_view(),
            all == replies_view(replies@),
            forall|k: int| 0 <= k < j ==> targets.contains((#[trigger] all[k]).0),
        decreases replies@.len() - j,
    {
        let mut found = false;
        let mut i: usize = 0;
        while i < asked.len()
            invariant
                j < replies@.len(),
                i <= asked@.len(),
                targets == asked.deep_view(),
                all == replies_view(replies@),
                found == exists|k: int|
                    0 <= k < i && #[trigger] targets[k] == all[j as int].0,
            decreases asked@.len() - i,
        {
            assert(all[j as int].0 == replies@[j as int].0@);
            if replies[j].0.same_key(&asked[i]) {
                found = true;
                assert(targets[i as int] == all[j as int].0);
            }
            i += 1;
        }
        if !found {
            assert(!targets.contains(all[j as int].0));
            return false;
        }
        j += 1;
    }
    proof {
        assert forall|t: RegionRoleView| #[trigger] targets.contains(t) implies exists|i: int|
            0 <= i < all.len() && (#[trigger] all[i]).0 == t by {
            let k = targets.index_of(t);
            assert(targets[k] == t);
        }
    }
    true
}

/// A publication under way. It asks for one thing at a time, and goes on with the answer.
#[derive(Debug)]
pub struct Publication {
    stage: Stage,
}

impl View for Publication {
    type V = StageView;

    closed spec fn view(&self) -> StageView {
        self.stage@
    }
}

impl Publication {
    #[verifier::type_invariant]
    spec fn sound(self) -> bool {
        well_formed(self.stage@)
    }

    /// A publication to the given regions, the first of which is the base to copy from. Where
    /// there are none, those of the configuration are taken.
    pub fn new(overrides: Vec<String>) -> (publication: Self)
        ensures
            publication@ == (StageView::ConfigNeeded { overrides: overrides.deep_view() }),
    {
        Publication { stage: Stage::ConfigNeeded { overrides } }
    }

    /// What the publication asks for. Those who are granted access are each listed once.
    pub fn action(&self) -> (action: Action)
        ensures
            action@ == action_of(self@),
            match action {
                Action::GrantSnapshots { options, .. } => {
                    options.user_ids.deep_view().no_duplicates()
                },
                Action::GrantImage { options, .. } => options.user_ids.deep_view().no_duplicates(),
                _ => true,
            },
    {
        match &self.stage {
            Stage::ConfigNeeded { .. } => Action::LoadConfig,
            Stage::AmispecNeeded { plan } => Action::RenderAmispec { at: plan.source.clone() },
            Stage::ImageSought { job } => Action::FindImage {
                at: job.source.clone(),
                name: job.name.clone(),
                arch: job.arch.clone(),
            },
            Stage::SnapshotsNeeded { job, image_id } => Action::ListSnapshots {
                at: job.source.clone(),
                image_id: image_id.clone(),
            },
            Stage::PublicNeeded { job, ids } => Action::CheckPublic {
                at: job.source.clone(),
                image_id: ids.image_id.clone(),
            },
            Stage::PermissionsNeeded { job, ids, .. } => Action::ListPermissions {
                at: job.source.clone(),
                image_id: ids.image_id.clone(),
            },
            Stage::RegistrationNeeded { job } => Action::RegisterImage { at: job.source.clone() },
            Stage::AccountNeeded { job, .. } => Action::ResolveAccount { at: job.source.clone() },
            Stage::AvailabilityNeeded { rollout } => Action::AwaitImage {
                at: rollout.job.source.clone(),
                image_id: rollout.ids.image_id.clone(),
                state: "available".to_owned(),
                successes: if rollout.already_registered {
                    1
                } else {
                    3
                },
            },
            Stage::AccountsNeeded { rollout } => Action::ResolveAccounts {
                targets: clone_targets(&rollout.job.targets),
            },
            Stage::SnapshotGrantNeeded { rollout, accounts } => Action::GrantSnapshots {
                at: rollout.job.source.clone(),
                options: options_for(accounts, &rollout.account_id),
                snapshot_ids: clone_texts(&rollout.ids.snapshot_ids),
            },
            Stage::ImageGrantNeeded { rollout, accounts } => Action::GrantImage {
                at: rollout.job.source.clone(),
                options: options_for(accounts, &rollout.account_id),
                image_id: rollout.ids.image_id.clone(),
            },
            Stage::ImagesSought { rollout, .. } => Action::FindImages {
                targets: clone_targets(&rollout.job.targets),
                name: rollout.job.name.clone(),
                arch: rollout.job.arch.clone(),
            },
            Stage::TargetPublicNeeded { target, image_id, .. } => Action::CheckPublic {
                at: target.clone(),
                image_id: image_id.clone(),
            },
            Stage::TargetPermissionsNeeded { target, image_id, .. } => Action::ListPermissions {
                at: target.clone(),
                image_id: image_id.clone(),
            },
            Stage::CopiesNeeded { rollout, copies, .. } => Action::CopyImages {
                requests: copy_requests(rollout, copies),
            },
            Stage::Finished { .. } => Action::Finish,
        }
    }

    /// Whether an event answers what the publication asks for.
    pub fn fits(&self, event: &Event) -> (fit: bool)
        ensures
            fit == fits(self@, event@),
    {
        match (&self.stage, event) {
            (Stage::ConfigNeeded { .. }, Event::ConfigLoaded(_)) => true,
            (Stage::AmispecNeeded { .. }, Event::AmispecRendered(_)) => true,
            (Stage::ImageSought { .. }, Event::ImageSearched(_)) => true,
            (Stage::SnapshotsNeeded { .. }, Event::SnapshotsListed(_)) => true,
            (Stage::PublicNeeded { .. }, Event::PublicChecked(_)) => true,
            (Stage::PermissionsNeeded { .. }, Event::PermissionsListed(_)) => true,
            (Stage::RegistrationNeeded { .. }, Event::ImageRegistered(_)) => true,
            (Stage::AccountNeeded { .. }, Event::AccountResolved(_)) => true,
            (Stage::AvailabilityNeeded { .. }, Event::ImageAwaited(_)) => true,
            (Stage::AccountsNeeded { rollout }, Event::AccountsResolved(replies)) => {
                are_answers(&rollout.job.targets, replies)
            },
            (Stage::SnapshotGrantNeeded { .. }, Event::AccessGranted(_)) => true,
            (Stage::ImageGrantNeeded { .. }, Event::AccessGranted(_)) => true,
            (Stage::ImagesSought { rollout, .. }, Event::ImagesSearched(replies)) => {
                are_answers(&rollout.job.targets, replies)
            },
            (Stage::TargetPublicNeeded { .. }, Event::PublicChecked(_)) => true,
            (Stage::TargetPermissionsNeeded { .. }, Event::PermissionsListed(_)) => true,
            (Stage::CopiesNeeded { copies, .. }, Event::ImagesCopied(replies)) => {
                are_answers(copies, replies)
            },
            _ => false,
        }
    }

    /// Goes on with an answer.
    pub fn step(self, event: Event) -> (publication: Self)
        requires
            fits(self@, event@),
        ensures
            publication@ == next(self@, event@),
    {
        proof {
            use_type_invariant(&self);
            lemma_next_well_formed(self@, event@);
        }
        let stage = match (self.stage, event) {
            (Stage::ConfigNeeded { overrides }, Event::ConfigLoaded(reply)) => {
                on_config(overrides, reply)
            },
            (Stage::AmispecNeeded { plan }, Event::AmispecRendered(reply)) => {
                on_amispec(plan, reply)
            },
            (Stage::ImageSought { job }, Event::ImageSearched(reply)) => on_search(job, reply),
            (Stage::SnapshotsNeeded { job, image_id }, Event::SnapshotsListed(reply)) => {
                on_snapshots(job, image_id, reply)
            },
            (Stage::PublicNeeded { job, ids }, Event::PublicChecked(reply)) => {
                on_public(job, ids, reply)
            },
            (Stage::PermissionsNeeded { job, ids, public }, Event::PermissionsListed(reply)) => {
                on_permissions(job, ids, public, reply)
            },
            (Stage::RegistrationNeeded { job }, Event::ImageRegistered(reply)) => {
                on_registration(job, reply)
            },
            (
                Stage::AccountNeeded { job, ids, already_registered, public, launch_permissions },
                Event::AccountResolved(reply),
            ) => on_account(job, ids, already_registered, public, launch_permissions, reply),
            (Stage::AvailabilityNeeded { rollout }, Event::ImageAwaited(reply)) => {
                on_wait(rollout, reply)
            },
            (Stage::AccountsNeeded { rollout }, Event::AccountsResolved(replies)) => {
                on_accounts(rollout, replies)
            },
            (Stage::SnapshotGrantNeeded { rollout, accounts }, Event::AccessGranted(reply)) => {
                on_snapshot_grant(rollout, accounts, reply)
            },
            (Stage::ImageGrantNeeded { rollout, accounts }, Event::AccessGranted(reply)) => {
                on_image_grant(rollout, accounts, reply)
            },
            (Stage::ImagesSought { rollout, accounts }, Event::ImagesSearched(replies)) => {
                on_searches(rollout, accounts, replies)
            },
            (
                Stage::TargetPublicNeeded { survey, target, image_id },
                Event::PublicChecked(reply),
            ) => on_target_public(survey, target, image_id, reply),
            (
                Stage::TargetPermissionsNeeded { survey, target, image_id, public },
                Event::PermissionsListed(reply),
            ) => on_target_permissions(survey, target, image_id, public, reply),
            (
                Stage::CopiesNeeded { rollout, accounts, copies },
                Event::ImagesCopied(replies),
            ) => {
                proof {
                    let all = replies_view(replies@);
                    let known = account_ids_view(accounts@);
                    assert forall|i: int| 0 <= i < replies@.len() implies accounts@.contains_key(
                        (#[trigger] replies@[i]).0@,
                    ) by {
                        assert(all[i].0 == replies@[i].0@);
                        assert(copies.deep_view().contains(all[i].0));
                        assert(known.contains_key(all[i].0));
                    }
                }
                on_copies(rollout, accounts, replies)
            },
            (stage, _) => stage,
        };
        Publication { stage }
    }

    /// The images that were published or the error that stopped the publication, and what came of
    /// each copy.
    pub fn finish(self) -> (end: (Result<RegionAccountImageMap, AmiError>, Vec<CopyReport>))
        requires
            self@ is Finished,
        ensures
            self@ == (StageView::Finished {
                outcome: reply_view(end.0),
                reports: end.1.deep_view(),
            }),
    {
        match self.stage {
            Stage::Finished { outcome, reports } => (outcome, reports),
            _ => (Ok(RegionAccountImageMap::new()), Vec::new()),
        }
    }
}

} // verus!
