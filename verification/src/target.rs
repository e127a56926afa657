//! Which regions and accounts an image is published to.

use crate::assoc::{AssocMap, Key};
use crate::error::{AmiError, AmiErrorView};
use vstd::prelude::*;

verus! {

/// Identifies a single target: a region together with the role to assume to reach a particular
/// account in that region. No role means the global credentials.
#[derive(Debug, PartialEq, Eq, Hash)]
pub struct RegionRole {
    pub region: String,
    pub role: Option<String>,
}

pub struct RegionRoleView {
    pub region: Seq<char>,
    pub role: Option<Seq<char>>,
}

impl View for RegionRole {
    type V = RegionRoleView;

    open spec fn view(&self) -> RegionRoleView {
        RegionRoleView { region: self.region@, role: self.role.deep_view() }
    }
}

impl DeepView for RegionRole {
    type V = RegionRoleView;

    open spec fn deep_view(&self) -> RegionRoleView {
        self@
    }
}

impl Clone for RegionRole {
    fn clone(&self) -> (copy: Self)
        ensures
            copy@ == self@,
    {
        RegionRole { region: self.region.clone(), role: clone_role(&self.role) }
    }
}

/// A copy of a role.
fn clone_role(role: &Option<String>) -> (copy: Option<String>)
    ensures
        copy.deep_view() == role.deep_view(),
{
    match role {
        Some(name) => Some(name.clone()),
        None => None,
    }
}

/// Whether two roles are the same.
fn same_role(a: &Option<String>, b: &Option<String>) -> (same: bool)
    ensures
        same == (a.deep_view() == b.deep_view()),
{
    match (a, b) {
        (Some(x), Some(y)) => *x == *y,
        (None, None) => true,
        _ => false,
    }
}

impl Key for RegionRole {
    fn same_key(&self, other: &Self) -> (same: bool) {
        self.region == other.region && same_role(&self.role, &other.role)
    }
}

/// The part of the infrastructure configuration that says where to publish.
#[derive(Debug)]
pub struct AwsConfig {
    /// The regions to publish to, the base region first.
    pub regions: Vec<String>,
    /// The roles of each region that is configured.
    pub region: AssocMap<String, Vec<Option<String>>>,
}

pub struct AwsConfigView {
    pub regions: Seq<Seq<char>>,
    pub region: Map<Seq<char>, Seq<Option<Seq<char>>>>,
}

impl View for AwsConfig {
    type V = AwsConfigView;

    open spec fn view(&self) -> AwsConfigView {
        AwsConfigView {
            regions: self.regions.deep_view(),
            region: self.region@.map_values(|roles: Vec<Option<String>>| roles.deep_view()),
        }
    }
}

impl DeepView for AwsConfig {
    type V = AwsConfigView;

    open spec fn deep_view(&self) -> AwsConfigView {
        self@
    }
}

/// The configuration that says nothing.
pub open spec fn empty_config() -> AwsConfigView {
    AwsConfigView { regions: Seq::empty(), region: Map::empty() }
}

impl Default for AwsConfig {
    fn default() -> (config: Self)
        ensures
            config@ == empty_config(),
    {
        let config = AwsConfig { regions: Vec::new(), region: AssocMap::new() };
        assert(config@.regions =~= empty_config().regions);
        assert(config@.region =~= empty_config().region);
        config
    }
}

/// The roles of a region: those that are configured or, where the region has no entry, no role at
/// all.
pub open spec fn roles_of(config: AwsConfigView, region: Seq<char>) -> Seq<Option<Seq<char>>> {
    if config.region.contains_key(region) {
        config.region[region]
    } else {
        seq![None]
    }
}

/// A copy of a list of roles.
fn clone_roles(roles: &Vec<Option<String>>) -> (copy: Vec<Option<String>>)
    ensures
        copy.deep_view() == roles.deep_view(),
{
    let mut copy: Vec<Option<String>> = Vec::new();
    let mut i: usize = 0;
    while i < roles.len()
        invariant
            i <= roles@.len(),
            copy@.len() == i,
            forall|j: int| 0 <= j < i ==> copy.deep_view()[j] == roles.deep_view()[j],
        decreases roles@.len() - i,
    {
        let ghost before = copy.deep_view();
        copy.push(clone_role(&roles[i]));
        assert(copy.deep_view() =~= before.push(roles.deep_view()[i as int]));
        i += 1;
    }
    assert(copy.deep_view() =~= roles.deep_view());
    copy
}

/// Returns every role configured for the given region. If the region has no entry in the
/// configuration, returns a single `None`, meaning the global credentials without a role of the
/// region's own.
pub fn roles_for_region(config: &AwsConfig, region: &String) -> (roles: Vec<Option<String>>)
    ensures
        roles.deep_view() == roles_of(config@, region@),
{
    match config.region.get(region) {
        Some(roles) => clone_roles(roles),
        None => {
            let mut roles: Vec<Option<String>> = Vec::new();
            roles.push(None);
            assert(roles.deep_view() =~= seq![None]);
            roles
        },
    }
}

/// The regions to publish to: those of the command line where it names any, else those of the
/// configuration.
pub open spec fn chosen_regions(
    overrides: Seq<Seq<char>>,
    config: AwsConfigView,
) -> Seq<Seq<char>> {
    if overrides.len() > 0 {
        overrides
    } else {
        config.regions
    }
}

/// The role to publish the first image with: the region's first.
pub open spec fn first_role(roles: Seq<Option<Seq<char>>>) -> Option<Seq<char>> {
    if roles.len() > 0 {
        roles[0]
    } else {
        None
    }
}

/// A region, with each of its roles.
pub open spec fn pairs_in(config: AwsConfigView, region: Seq<char>) -> Seq<RegionRoleView> {
    roles_of(config, region).map_values(|role: Option<Seq<char>>| RegionRoleView { region, role })
}

/// Every region, with each of its roles.
pub open spec fn pairs_of(config: AwsConfigView, regions: Seq<Seq<char>>) -> Seq<RegionRoleView>
    decreases regions.len(),
{
    if regions.len() == 0 {
        Seq::empty()
    } else {
        pairs_of(config, regions.drop_last()) + pairs_in(config, regions.last())
    }
}

/// What the pairs to copy to have in common: they are not the source.
pub open spec fn other_than(source: RegionRoleView) -> spec_fn(RegionRoleView) -> bool {
    |pair: RegionRoleView| pair != source
}

/// The pairs to copy to: all but the source.
pub open spec fn targets_of(
    config: AwsConfigView,
    regions: Seq<Seq<char>>,
    source: RegionRoleView,
) -> Seq<RegionRoleView> {
    pairs_of(config, regions).filter(other_than(source))
}

/// Where an image is registered, and where it is copied to from there.
#[derive(Debug)]
pub struct Plan {
    pub source: RegionRole,
    pub targets: Vec<RegionRole>,
}

pub struct PlanView {
    pub source: RegionRoleView,
    pub targets: Seq<RegionRoleView>,
}

impl View for Plan {
    type V = PlanView;

    open spec fn view(&self) -> PlanView {
        PlanView { source: self.source@, targets: self.targets.deep_view() }
    }
}

/// The plan for a command line and a configuration.
pub open spec fn planned(overrides: Seq<Seq<char>>, config: AwsConfigView) -> Result<
    PlanView,
    AmiErrorView,
> {
    let regions = chosen_regions(overrides, config);
    if regions.len() == 0 {
        Err(AmiErrorView::MissingConfig { missing: "aws.regions"@ })
    } else {
        let source = RegionRoleView {
            region: regions[0],
            role: first_role(roles_of(config, regions[0])),
        };
        Ok(PlanView { source, targets: targets_of(config, regions, source) })
    }
}

/// The pairs to copy to: the product of every region and every role configured for it, minus the
/// source.
fn copy_targets(config: &AwsConfig, regions: &Vec<String>, source: &RegionRole) -> (targets: Vec<
    RegionRole,
>)
    ensures
        targets.deep_view() == targets_of(config@, regions.deep_view(), source@),
{
    let ghost keep = other_than(source@);
    let ghost names = regions.deep_view();
    let mut targets: Vec<RegionRole> = Vec::new();
    let mut i: usize = 0;
    proof {
        reveal(Seq::filter);
        assert(targets.deep_view() =~= pairs_of(config@, names.take(0)).filter(keep));
    }
    while i < regions.len()
        invariant
            i <= regions@.len(),
            names == regions.deep_view(),
            keep == other_than(source@),
            targets.deep_view() == pairs_of(config@, names.take(i as int)).filter(keep),
        decreases regions@.len() - i,
    {
        let region = &regions[i];
        let roles = roles_for_region(config, region);
        let ghost done = pairs_of(config@, names.take(i as int));
        let ghost here = pairs_in(config@, region@);
        let mut j: usize = 0;
        assert(done + here.take(0) =~= done);
        while j < roles.len()
            invariant
                j <= roles@.len(),
                roles.deep_view() == roles_of(config@, region@),
                here == pairs_in(config@, region@),
                keep == other_than(source@),
                targets.deep_view() == (done + here.take(j as int)).filter(keep),
            decreases roles@.len() - j,
        {
            let pair = RegionRole { region: region.clone(), role: clone_role(&roles[j]) };
            let ghost before = targets.deep_view();
            proof {
                assert(pair@ == here[j as int]);
                assert(done + here.take(j + 1) =~= (done + here.take(j as int)).push(pair@));
                assert((done + here.take(j + 1)).drop_last() =~= done + here.take(j as int));
                reveal(Seq::filter);
            }
            // The source is registered already.
            if !pair.same_key(source) {
                targets.push(pair);
                assert(targets.deep_view() =~= before.push(pair@));
            }
            j += 1;
        }
        proof {
            assert(here.take(j as int) =~= here);
            assert(names.take(i + 1).drop_last() =~= names.take(i as int));
            assert(names.take(i + 1).last() == region@);
        }
        i += 1;
    }
    assert(names.take(i as int) =~= names);
    targets
}

/// Decides where to register an image and where to copy it to. The first region is the base
/// region, and its first role is the one that the image is registered with.
pub fn plan(overrides: Vec<String>, config: AwsConfig) -> (plan: Result<Plan, AmiError>)
    ensures
        match plan {
            Ok(p) => planned(overrides.deep_view(), config@) == Ok::<PlanView, AmiErrorView>(p@),
            Err(e) => planned(overrides.deep_view(), config@) == Err::<PlanView, AmiErrorView>(e@),
        },
{
    let regions: &Vec<String> = if overrides.len() > 0 {
        &overrides
    } else {
        &config.regions
    };
    if regions.len() == 0 {
        return Err(AmiError::MissingConfig { missing: "aws.regions".to_owned() });
    }
    let mut roles = roles_for_region(&config, &regions[0]);
    let role = if roles.len() > 0 {
        roles.remove(0)
    } else {
        None
    };
    let source = RegionRole { region: regions[0].clone(), role };
    let targets = copy_targets(&config, regions, &source);
    Ok(Plan { source, targets })
}

} // verus!
