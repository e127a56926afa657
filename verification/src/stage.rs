//! The stages of a publication, what each of them asks for, and what it is answered.

use crate::error::{AmiError, AmiErrorView};
use crate::identity::{account_ids_view, replies_view, reply_view, AccountIds};
use crate::image::{
    ImageView, LaunchPermissionDef, LaunchPermissionView, RegionAccount, RegionAccountImageMap,
    RegionAccountView,
};
use crate::target::{AwsConfig, AwsConfigView, Plan, PlanView, RegionRole, RegionRoleView};
use vstd::prelude::*;

verus! {

/// What is known about a target: an ID, that there is none, or why it could not be found out.
pub type SearchReplyView = (RegionRoleView, Result<Option<Seq<char>>, Seq<char>>);

/// What came of a copy: the ID of the new image, that none was given, or the code of the failure
/// where there is one.
pub type CopyReplyView = (RegionRoleView, Result<Option<Seq<char>>, Option<Seq<char>>>);

/// The replies of a search, in the order in which they arrived.
pub type SearchReplies = Vec<(RegionRole, Result<Option<String>, String>)>;

/// The replies to copy requests, in the order in which they arrived.
pub type CopyReplies = Vec<(RegionRole, Result<Option<String>, Option<String>>)>;

/// The registration options that a publication goes by.
#[derive(Debug)]
pub struct Amispec {
    /// The name of the image.
    pub name: String,
    /// The architecture of the image.
    pub architecture: Option<String>,
    /// The description of the image.
    pub description: Option<String>,
}

pub struct AmispecView {
    pub name: Seq<char>,
    pub architecture: Option<Seq<char>>,
    pub description: Option<Seq<char>>,
}

impl View for Amispec {
    type V = AmispecView;

    open spec fn view(&self) -> AmispecView {
        AmispecView {
            name: self.name@,
            architecture: self.architecture.deep_view(),
            description: self.description.deep_view(),
        }
    }
}

impl DeepView for Amispec {
    type V = AmispecView;

    open spec fn deep_view(&self) -> AmispecView {
        self@
    }
}

/// The IDs of a registered image.
#[derive(Debug)]
pub struct RegisteredIds {
    /// The image.
    pub image_id: String,
    /// The snapshots behind it.
    pub snapshot_ids: Vec<String>,
}

pub struct RegisteredIdsView {
    pub image_id: Seq<char>,
    pub snapshot_ids: Seq<Seq<char>>,
}

impl View for RegisteredIds {
    type V = RegisteredIdsView;

    open spec fn view(&self) -> RegisteredIdsView {
        RegisteredIdsView {
            image_id: self.image_id@,
            snapshot_ids: self.snapshot_ids.deep_view(),
        }
    }
}

impl DeepView for RegisteredIds {
    type V = RegisteredIdsView;

    open spec fn deep_view(&self) -> RegisteredIdsView {
        self@
    }
}

/// A publication whose image is known by name.
#[derive(Debug)]
pub struct Job {
    /// Where the image is registered.
    pub source: RegionRole,
    /// Where it is copied to.
    pub targets: Vec<RegionRole>,
    pub name: String,
    pub arch: String,
    pub description: Option<String>,
}

pub struct JobView {
    pub source: RegionRoleView,
    pub targets: Seq<RegionRoleView>,
    pub name: Seq<char>,
    pub arch: Seq<char>,
    pub description: Option<Seq<char>>,
}

impl View for Job {
    type V = JobView;

    open spec fn view(&self) -> JobView {
        JobView {
            source: self.source@,
            targets: self.targets.deep_view(),
            name: self.name@,
            arch: self.arch@,
            description: self.description.deep_view(),
        }
    }
}

impl DeepView for Job {
    type V = JobView;

    open spec fn deep_view(&self) -> JobView {
        self@
    }
}

/// A publication whose image is registered at the source.
#[derive(Debug)]
pub struct Rollout {
    pub job: Job,
    /// The image at the source.
    pub ids: RegisteredIds,
    /// Whether the image was there before.
    pub already_registered: bool,
    /// The account that owns the image at the source.
    pub account_id: String,
    /// What is published so far.
    pub amis: RegionAccountImageMap,
}

pub struct RolloutView {
    pub job: JobView,
    pub ids: RegisteredIdsView,
    pub already_registered: bool,
    pub account_id: Seq<char>,
    pub amis: Map<Seq<char>, Map<Seq<char>, ImageView>>,
}

impl View for Rollout {
    type V = RolloutView;

    open spec fn view(&self) -> RolloutView {
        RolloutView {
            job: self.job@,
            ids: self.ids@,
            already_registered: self.already_registered,
            account_id: self.account_id@,
            amis: self.amis@,
        }
    }
}

impl DeepView for Rollout {
    type V = RolloutView;

    open spec fn deep_view(&self) -> RolloutView {
        self@
    }
}

/// A publication that looks through the images found at its targets.
#[derive(Debug)]
pub struct Survey {
    pub rollout: Rollout,
    /// The account of each target.
    pub accounts: AccountIds,
    /// The replies that are still to be looked at.
    pub pending: SearchReplies,
    /// The targets that have no image yet.
    pub copies: Vec<RegionRole>,
}

pub struct SurveyView {
    pub rollout: RolloutView,
    pub accounts: Map<RegionRoleView, Seq<char>>,
    pub pending: Seq<SearchReplyView>,
    pub copies: Seq<RegionRoleView>,
}

impl View for Survey {
    type V = SurveyView;

    open spec fn view(&self) -> SurveyView {
        SurveyView {
            rollout: self.rollout@,
            accounts: account_ids_view(self.accounts@),
            pending: replies_view(self.pending@),
            copies: self.copies.deep_view(),
        }
    }
}

impl DeepView for Survey {
    type V = SurveyView;

    open spec fn deep_view(&self) -> SurveyView {
        self@
    }
}

/// What came of a copy.
#[derive(Debug, PartialEq, Eq)]
pub enum CopyOutcome {
    /// The image was copied, and has this ID.
    Registered(String),
    /// The image was copied, but no ID was given.
    NoImageId,
    /// The copy failed, with this code.
    Failed(String),
}

pub enum CopyOutcomeView {
    Registered(Seq<char>),
    NoImageId,
    Failed(Seq<char>),
}

impl View for CopyOutcome {
    type V = CopyOutcomeView;

    open spec fn view(&self) -> CopyOutcomeView {
        match *self {
            CopyOutcome::Registered(x) => CopyOutcomeView::Registered(x@),
            CopyOutcome::NoImageId => CopyOutcomeView::NoImageId,
            CopyOutcome::Failed(x) => CopyOutcomeView::Failed(x@),
        }
    }
}

impl DeepView for CopyOutcome {
    type V = CopyOutcomeView;

    open spec fn deep_view(&self) -> CopyOutcomeView {
        self@
    }
}

/// What came of the copy to one account in one region.
#[derive(Debug, PartialEq, Eq)]
pub struct CopyReport {
    pub at: RegionAccount,
    pub outcome: CopyOutcome,
}

pub struct CopyReportView {
    pub at: RegionAccountView,
    pub outcome: CopyOutcomeView,
}

impl View for CopyReport {
    type V = CopyReportView;

    open spec fn view(&self) -> CopyReportView {
        CopyReportView {
            at: self.at@,
            outcome: self.outcome@,
        }
    }
}

impl DeepView for CopyReport {
    type V = CopyReportView;

    open spec fn deep_view(&self) -> CopyReportView {
        self@
    }
}

/// How far a publication has come. But for the last, each stage waits for the answer to one
/// request.
#[derive(Debug)]
pub enum Stage {
    /// The infrastructure configuration is to be loaded.
    ConfigNeeded { overrides: Vec<String> },
    /// The registration options are to be rendered.
    AmispecNeeded { plan: Plan },
    /// The image is looked for at the source.
    ImageSought { job: Job },
    /// The image was found, its snapshots are to be listed.
    SnapshotsNeeded { job: Job, image_id: String },
    /// It is to be found out whether the image is public.
    PublicNeeded { job: Job, ids: RegisteredIds },
    /// The launch permissions of the image are to be listed.
    PermissionsNeeded { job: Job, ids: RegisteredIds, public: bool },
    /// The image was not found, and is to be registered.
    RegistrationNeeded { job: Job },
    /// The account behind the source is to be resolved.
    AccountNeeded {
        job: Job,
        ids: RegisteredIds,
        already_registered: bool,
        public: bool,
        launch_permissions: Vec<LaunchPermissionDef>,
    },
    /// The image is to become available.
    AvailabilityNeeded { rollout: Rollout },
    /// The accounts behind the targets are to be resolved.
    AccountsNeeded { rollout: Rollout },
    /// The accounts of the targets are to be granted access to the snapshots.
    SnapshotGrantNeeded { rollout: Rollout, accounts: AccountIds },
    /// The accounts of the targets are to be granted access to the image.
    ImageGrantNeeded { rollout: Rollout, accounts: AccountIds },
    /// The image is looked for at the targets.
    ImagesSought { rollout: Rollout, accounts: AccountIds },
    /// It is to be found out whether the image of a target is public.
    TargetPublicNeeded { survey: Survey, target: RegionRole, image_id: String },
    /// The launch permissions of the image of a target are to be listed.
    TargetPermissionsNeeded { survey: Survey, target: RegionRole, image_id: String, public: bool },
    /// The image is to be copied to the targets that lack it.
    CopiesNeeded { rollout: Rollout, accounts: AccountIds, copies: Vec<RegionRole> },
    /// Nothing is left to do.
    Finished { outcome: Result<RegionAccountImageMap, AmiError>, reports: Vec<CopyReport> },
}

pub enum StageView {
    ConfigNeeded { overrides: Seq<Seq<char>> },
    AmispecNeeded { plan: PlanView },
    ImageSought { job: JobView },
    SnapshotsNeeded { job: JobView, image_id: Seq<char> },
    PublicNeeded { job: JobView, ids: RegisteredIdsView },
    PermissionsNeeded { job: JobView, ids: RegisteredIdsView, public: bool },
    RegistrationNeeded { job: JobView },
    AccountNeeded {
        job: JobView,
        ids: RegisteredIdsView,
        already_registered: bool,
        public: bool,
        launch_permissions: Seq<LaunchPermissionView>,
    },
    AvailabilityNeeded { rollout: RolloutView },
    AccountsNeeded { rollout: RolloutView },
    SnapshotGrantNeeded { rollout: RolloutView, accounts: Map<RegionRoleView, Seq<char>> },
    ImageGrantNeeded { rollout: RolloutView, accounts: Map<RegionRoleView, Seq<char>> },
    ImagesSought { rollout: RolloutView, accounts: Map<RegionRoleView, Seq<char>> },
    TargetPublicNeeded { survey: SurveyView, target: RegionRoleView, image_id: Seq<char> },
    TargetPermissionsNeeded {
        survey: SurveyView,
        target: RegionRoleView,
        image_id: Seq<char>,
        public: bool,
    },
    CopiesNeeded {
        rollout: RolloutView,
        accounts: Map<RegionRoleView, Seq<char>>,
        copies: Seq<RegionRoleView>,
    },
    Finished {
        outcome: Result<Map<Seq<char>, Map<Seq<char>, ImageView>>, AmiErrorView>,
        reports: Seq<CopyReportView>,
    },
}

impl View for Stage {
    type V = StageView;

    open spec fn view(&self) -> StageView {
        match *self {
            Stage::ConfigNeeded { overrides } => StageView::ConfigNeeded {
                overrides: overrides.deep_view(),
            },
            Stage::AmispecNeeded { plan } => StageView::AmispecNeeded { plan: plan@ },
            Stage::ImageSought { job } => StageView::ImageSought { job: job@ },
            Stage::SnapshotsNeeded { job, image_id } => StageView::SnapshotsNeeded {
                job: job@,
                image_id: image_id@,
            },
            Stage::PublicNeeded { job, ids } => StageView::PublicNeeded { job: job@, ids: ids@ },
            Stage::PermissionsNeeded { job, ids, public } => StageView::PermissionsNeeded {
                job: job@,
                ids: ids@,
                public,
            },
            Stage::RegistrationNeeded { job } => StageView::RegistrationNeeded { job: job@ },
            Stage::AccountNeeded { job, ids, already_registered, public, launch_permissions } => {
                StageView::AccountNeeded {
                    job: job@,
                    ids: ids@,
                    already_registered,
                    public,
                    launch_permissions: launch_permissions.deep_view(),
                }
            },
            Stage::AvailabilityNeeded { rollout } => StageView::AvailabilityNeeded {
                rollout: rollout@,
            },
            Stage::AccountsNeeded { rollout } => StageView::AccountsNeeded { rollout: rollout@ },
            Stage::SnapshotGrantNeeded { rollout, accounts } => StageView::SnapshotGrantNeeded {
                rollout: rollout@,
                accounts: account_ids_view(accounts@),
            },
            Stage::ImageGrantNeeded { rollout, accounts } => StageView::ImageGrantNeeded {
                rollout: rollout@,
                accounts: account_ids_view(accounts@),
            },
            Stage::ImagesSought { rollout, accounts } => StageView::ImagesSought {
                rollout: rollout@,
                accounts: account_ids_view(accounts@),
            },
            Stage::TargetPublicNeeded { survey, target, image_id } => {
                StageView::TargetPublicNeeded {
                    survey: survey@,
                    target: target@,
                    image_id: image_id@,
                }
            },
            Stage::TargetPermissionsNeeded { survey, target, image_id, public } => {
                StageView::TargetPermissionsNeeded {
                    survey: survey@,
                    target: target@,
                    image_id: image_id@,
                    public,
                }
            },
            Stage::CopiesNeeded { rollout, accounts, copies } => StageView::CopiesNeeded {
                rollout: rollout@,
                accounts: account_ids_view(accounts@),
                copies: copies.deep_view(),
            },
            Stage::Finished { outcome, reports } => StageView::Finished {
                outcome: reply_view(outcome),
                reports: reports.deep_view(),
            },
        }
    }
}

/// The answer to a request. A failure is given by its description.
#[derive(Debug)]
pub enum Event {
    /// The configuration, where the infrastructure has one.
    ConfigLoaded(Result<Option<AwsConfig>, String>),
    /// The registration options.
    AmispecRendered(Result<Amispec, String>),
    /// The ID of the image, where there is one.
    ImageSearched(Result<Option<String>, String>),
    /// The IDs of the snapshots.
    SnapshotsListed(Result<Vec<String>, String>),
    /// Whether the image is public.
    PublicChecked(Result<bool, String>),
    /// The launch permissions.
    PermissionsListed(Result<Vec<LaunchPermissionDef>, String>),
    /// The IDs of the new image.
    ImageRegistered(Result<RegisteredIds, String>),
    /// The account ID, where the response holds one.
    AccountResolved(Result<Option<String>, String>),
    /// That the image is available.
    ImageAwaited(Result<(), String>),
    /// The account ID of each target, where the response holds one.
    AccountsResolved(Vec<(RegionRole, Result<Option<String>, String>)>),
    /// That access is granted.
    AccessGranted(Result<(), String>),
    /// The ID of the image of each target, where there is one.
    ImagesSearched(Vec<(RegionRole, Result<Option<String>, String>)>),
    /// The ID of each copy, where the response holds one, or the code of the failure.
    ImagesCopied(Vec<(RegionRole, Result<Option<String>, Option<String>>)>),
}

pub enum EventView {
    ConfigLoaded(Result<Option<AwsConfigView>, Seq<char>>),
    AmispecRendered(Result<AmispecView, Seq<char>>),
    ImageSearched(Result<Option<Seq<char>>, Seq<char>>),
    SnapshotsListed(Result<Seq<Seq<char>>, Seq<char>>),
    PublicChecked(Result<bool, Seq<char>>),
    PermissionsListed(Result<Seq<LaunchPermissionView>, Seq<char>>),
    ImageRegistered(Result<RegisteredIdsView, Seq<char>>),
    AccountResolved(Result<Option<Seq<char>>, Seq<char>>),
    ImageAwaited(Result<(), Seq<char>>),
    AccountsResolved(Seq<SearchReplyView>),
    AccessGranted(Result<(), Seq<char>>),
    ImagesSearched(Seq<SearchReplyView>),
    ImagesCopied(Seq<CopyReplyView>),
}

impl View for Event {
    type V = EventView;

    open spec fn view(&self) -> EventView {
        match *self {
            Event::ConfigLoaded(x) => EventView::ConfigLoaded(reply_view(x)),
            Event::AmispecRendered(x) => EventView::AmispecRendered(reply_view(x)),
            Event::ImageSearched(x) => EventView::ImageSearched(reply_view(x)),
            Event::SnapshotsListed(x) => EventView::SnapshotsListed(reply_view(x)),
            Event::PublicChecked(x) => EventView::PublicChecked(reply_view(x)),
            Event::PermissionsListed(x) => EventView::PermissionsListed(reply_view(x)),
            Event::ImageRegistered(x) => EventView::ImageRegistered(reply_view(x)),
            Event::AccountResolved(x) => EventView::AccountResolved(reply_view(x)),
            Event::ImageAwaited(x) => EventView::ImageAwaited(reply_view(x)),
            Event::AccountsResolved(x) => EventView::AccountsResolved(replies_view(x@)),
            Event::AccessGranted(x) => EventView::AccessGranted(reply_view(x)),
            Event::ImagesSearched(x) => EventView::ImagesSearched(replies_view(x@)),
            Event::ImagesCopied(x) => EventView::ImagesCopied(replies_view(x@)),
        }
    }
}

/// A request to copy the image at the source to a target.
#[derive(Debug, PartialEq, Eq)]
pub struct CopyRequest {
    /// Where the request is sent.
    pub target: RegionRole,
    pub description: Option<String>,
    pub name: String,
    pub source_image_id: String,
    pub source_region: String,
    pub copy_image_tags: bool,
}

pub struct CopyRequestView {
    pub target: RegionRoleView,
    pub description: Option<Seq<char>>,
    pub name: Seq<char>,
    pub source_image_id: Seq<char>,
    pub source_region: Seq<char>,
    pub copy_image_tags: bool,
}

impl View for CopyRequest {
    type V = CopyRequestView;

    open spec fn view(&self) -> CopyRequestView {
        CopyRequestView {
            target: self.target@,
            description: self.description.deep_view(),
            name: self.name@,
            source_image_id: self.source_image_id@,
            source_region: self.source_region@,
            copy_image_tags: self.copy_image_tags,
        }
    }
}

impl DeepView for CopyRequest {
    type V = CopyRequestView;

    open spec fn deep_view(&self) -> CopyRequestView {
        self@
    }
}

/// Whom to change the access of.
#[derive(Debug, PartialEq, Eq)]
pub struct ModifyOptions {
    pub user_ids: Vec<String>,
    pub group_names: Vec<String>,
    pub organization_arns: Vec<String>,
    pub organizational_unit_arns: Vec<String>,
}

/// Whom to change the access of. The order in which they are listed does not matter.
pub struct ModifyOptionsView {
    pub user_ids: Set<Seq<char>>,
    pub group_names: Set<Seq<char>>,
    pub organization_arns: Set<Seq<char>>,
    pub organizational_unit_arns: Set<Seq<char>>,
}

impl View for ModifyOptions {
    type V = ModifyOptionsView;

    open spec fn view(&self) -> ModifyOptionsView {
        ModifyOptionsView {
            user_ids: self.user_ids.deep_view().to_set(),
            group_names: self.group_names.deep_view().to_set(),
            organization_arns: self.organization_arns.deep_view().to_set(),
            organizational_unit_arns: self.organizational_unit_arns.deep_view().to_set(),
        }
    }
}

/// What a stage asks for.
#[derive(Debug, PartialEq, Eq)]
pub enum Action {
    /// Load the infrastructure configuration.
    LoadConfig,
    /// Connect to the source, and render the registration options without any snapshots.
    RenderAmispec { at: RegionRole },
    /// Look for an image by name and architecture.
    FindImage { at: RegionRole, name: String, arch: String },
    /// List the snapshots of an image.
    ListSnapshots { at: RegionRole, image_id: String },
    /// Find out whether an image is public.
    CheckPublic { at: RegionRole, image_id: String },
    /// List the launch permissions of an image.
    ListPermissions { at: RegionRole, image_id: String },
    /// Register the image.
    RegisterImage { at: RegionRole },
    /// Resolve the account ID.
    ResolveAccount { at: RegionRole },
    /// Wait until an image has been seen in a state a number of times.
    AwaitImage { at: RegionRole, image_id: String, state: String, successes: u8 },
    /// Connect to each target, and resolve its account ID.
    ResolveAccounts { targets: Vec<RegionRole> },
    /// Add to those who have access to some snapshots.
    GrantSnapshots { at: RegionRole, options: ModifyOptions, snapshot_ids: Vec<String> },
    /// Add to those who have access to an image.
    GrantImage { at: RegionRole, options: ModifyOptions, image_id: String },
    /// Look for an image by name and architecture at each target.
    FindImages { targets: Vec<RegionRole>, name: String, arch: String },
    /// Send the copy requests.
    CopyImages { requests: Vec<CopyRequest> },
    /// Take the outcome.
    Finish,
}

pub enum ActionView {
    LoadConfig,
    RenderAmispec { at: RegionRoleView },
    FindImage { at: RegionRoleView, name: Seq<char>, arch: Seq<char> },
    ListSnapshots { at: RegionRoleView, image_id: Seq<char> },
    CheckPublic { at: RegionRoleView, image_id: Seq<char> },
    ListPermissions { at: RegionRoleView, image_id: Seq<char> },
    RegisterImage { at: RegionRoleView },
    ResolveAccount { at: RegionRoleView },
    AwaitImage { at: RegionRoleView, image_id: Seq<char>, state: Seq<char>, successes: u8 },
    ResolveAccounts { targets: Seq<RegionRoleView> },
    GrantSnapshots { at: RegionRoleView, options: ModifyOptionsView, snapshot_ids: Seq<Seq<char>> },
    GrantImage { at: RegionRoleView, options: ModifyOptionsView, image_id: Seq<char> },
    FindImages { targets: Seq<RegionRoleView>, name: Seq<char>, arch: Seq<char> },
    CopyImages { requests: Seq<CopyRequestView> },
    Finish,
}

impl View for Action {
    type V = ActionView;

    open spec fn view(&self) -> ActionView {
        match *self {
            Action::LoadConfig => ActionView::LoadConfig,
            Action::RenderAmispec { at } => ActionView::RenderAmispec { at: at@ },
            Action::FindImage { at, name, arch } => ActionView::FindImage {
                at: at@,
                name: name@,
                arch: arch@,
            },
            Action::ListSnapshots { at, image_id } => ActionView::ListSnapshots {
                at: at@,
                image_id: image_id@,
            },
            Action::CheckPublic { at, image_id } => ActionView::CheckPublic {
                at: at@,
                image_id: image_id@,
            },
            Action::ListPermissions { at, image_id } => ActionView::ListPermissions {
                at: at@,
                image_id: image_id@,
            },
            Action::RegisterImage { at } => ActionView::RegisterImage { at: at@ },
            Action::ResolveAccount { at } => ActionView::ResolveAccount { at: at@ },
            Action::AwaitImage { at, image_id, state, successes } => ActionView::AwaitImage {
                at: at@,
                image_id: image_id@,
                state: state@,
                successes,
            },
            Action::ResolveAccounts { targets } => ActionView::ResolveAccounts {
                targets: targets.deep_view(),
            },
            Action::GrantSnapshots { at, options, snapshot_ids } => ActionView::GrantSnapshots {
                at: at@,
                options: options@,
                snapshot_ids: snapshot_ids.deep_view(),
            },
            Action::GrantImage { at, options, image_id } => ActionView::GrantImage {
                at: at@,
                options: options@,
                image_id: image_id@,
            },
            Action::FindImages { targets, name, arch } => ActionView::FindImages {
                targets: targets.deep_view(),
                name: name@,
                arch: arch@,
            },
            Action::CopyImages { requests } => ActionView::CopyImages {
                requests: requests.deep_view(),
            },
            Action::Finish => ActionView::Finish,
        }
    }
}

} // verus!
