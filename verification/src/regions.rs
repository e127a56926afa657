//! Which regions and roles a command line and a configuration make.

use crate::error::AmiErrorView;
use crate::laws::{law_plan_reaches_every_pair, lemma_filter_concat};
use crate::target::{
    chosen_regions, empty_config, other_than, pairs_in, pairs_of, planned, roles_of, AwsConfigView,
    PlanView, RegionRoleView,
};
use vstd::prelude::*;

verus! {

/// Whether a region is reached with a role: with one that is configured for it or, where the
/// configuration has no entry for it, without any.
pub open spec fn reached_with(
    config: AwsConfigView,
    region: Seq<char>,
    role: Option<Seq<char>>,
) -> bool {
    if config.region.contains_key(region) {
        config.region[region].contains(role)
    } else {
        role is None
    }
}

/// Whether a plan is for some regions: its source is the first of them, with the first role
/// configured for it, and its targets are each of them with each of its roles, but for the source.
pub open spec fn is_for(plan: PlanView, regions: Seq<Seq<char>>, config: AwsConfigView) -> bool {
    let base = regions[0];
    &&& plan.source.region == base
    &&& config.region.contains_key(base) && config.region[base].len() > 0 ==> plan.source.role
        == config.region[base][0]
    &&& !(config.region.contains_key(base) && config.region[base].len() > 0)
        ==> plan.source.role is None
    &&& forall|region: Seq<char>, role: Option<Seq<char>>|
        #![trigger plan.targets.contains(RegionRoleView { region, role })]
        plan.targets.contains(RegionRoleView { region, role }) <==> {
            &&& regions.contains(region)
            &&& reached_with(config, region, role)
            &&& !(region == plan.source.region && role == plan.source.role)
        }
}

/// The roles of a region are those that it is reached with.
proof fn lemma_reached_with(config: AwsConfigView, region: Seq<char>, role: Option<Seq<char>>)
    ensures
        roles_of(config, region).contains(role) <==> reached_with(config, region, role),
{
    if !config.region.contains_key(region) {
        let none: Seq<Option<Seq<char>>> = seq![None];
        assert(none[0] == None::<Seq<char>>);
        assert(none.contains(None));
    }
}

/// A plan is for the regions that were chosen.
proof fn lemma_is_for(
    overrides: Seq<Seq<char>>,
    config: AwsConfigView,
    plan: PlanView,
    regions: Seq<Seq<char>>,
)
    requires
        planned(overrides, config) == Ok::<PlanView, AmiErrorView>(plan),
        regions == chosen_regions(overrides, config),
    ensures
        is_for(plan, regions, config),
{
    assert forall|region: Seq<char>, role: Option<Seq<char>>|
        #![trigger plan.targets.contains(RegionRoleView { region, role })]
        plan.targets.contains(RegionRoleView { region, role }) <==> {
            &&& regions.contains(region)
            &&& reached_with(config, region, role)
            &&& !(region == plan.source.region && role == plan.source.role)
        } by {
        lemma_reached_with(config, region, role);
        law_plan_reaches_every_pair(
            overrides,
            config,
            plan,
            RegionRoleView { region, role },
        );
    }
}

/// Where the command line names any region, the plan is for the regions of the command line,
/// however many it names, and for no others.
pub proof fn law_command_line_overrides_the_configuration(
    overrides: Seq<Seq<char>>,
    config: AwsConfigView,
)
    requires
        overrides.len() > 0,
    ensures
        planned(overrides, config) is Ok,
        is_for(planned(overrides, config)->Ok_0, overrides, config),
{
    lemma_is_for(overrides, config, planned(overrides, config)->Ok_0, overrides);
}

/// Where the command line names a region, the regions of the configuration do not matter: two
/// configurations with the same roles make the same plan.
pub proof fn law_overridden_regions_do_not_matter(
    overrides: Seq<Seq<char>>,
    config: AwsConfigView,
    other: AwsConfigView,
)
    requires
        overrides.len() > 0,
        config.region == other.region,
    ensures
        planned(overrides, config) == planned(overrides, other),
{
    lemma_pairs_by_roles(config, other, overrides);
}

/// Regions make the same pairs for two configurations with the same roles.
proof fn lemma_pairs_by_roles(
    config: AwsConfigView,
    other: AwsConfigView,
    regions: Seq<Seq<char>>,
)
    requires
        config.region == other.region,
    ensures
        pairs_of(config, regions) == pairs_of(other, regions),
    decreases regions.len(),
{
    if regions.len() > 0 {
        lemma_pairs_by_roles(config, other, regions.drop_last());
        assert(pairs_in(config, regions.last()) =~= pairs_in(other, regions.last()));
    }
}

/// Where the command line names no region, the plan is for the regions of the configuration.
pub proof fn law_configuration_counts_without_a_command_line(config: AwsConfigView)
    requires
        config.regions.len() > 0,
    ensures
        planned(Seq::empty(), config) is Ok,
        is_for(planned(Seq::empty(), config)->Ok_0, config.regions, config),
{
    lemma_is_for(
        Seq::empty(),
        config,
        planned(Seq::empty(), config)->Ok_0,
        config.regions,
    );
}

/// The regions of the configuration are read as those of a command line would be.
pub proof fn law_configured_regions_are_read_like_named_ones(config: AwsConfigView)
    requires
        config.regions.len() > 0,
    ensures
        planned(Seq::empty(), config) == planned(config.regions, config),
{
}

/// There is no plan exactly where neither the command line nor the configuration names a region,
/// and that is what the error says.
pub proof fn law_no_region_no_plan(overrides: Seq<Seq<char>>, config: AwsConfigView)
    ensures
        planned(overrides, config) is Err <==> overrides.len() == 0 && config.regions.len() == 0,
        planned(overrides, config) is Err ==> planned(overrides, config)->Err_0 == (
        AmiErrorView::MissingConfig { missing: "aws.regions"@ }),
{
}

/// The configuration that says nothing names no region, and no role for any.
pub proof fn law_default_configuration_says_nothing(region: Seq<char>)
    ensures
        empty_config().regions.len() == 0,
        !empty_config().region.contains_key(region),
{
}

/// A region is reached with its configured roles, each as often as it is configured and in that
/// order, and without a role where it has no entry.
pub proof fn law_roles_are_those_configured(config: AwsConfigView, region: Seq<char>)
    ensures
        config.region.contains_key(region) ==> roles_of(config, region) == config.region[region],
        !config.region.contains_key(region) ==> roles_of(config, region).len() == 1 && roles_of(
            config,
            region,
        )[0] is None,
{
}

/// A region with a list of roles, in its order, without one pair.
pub open spec fn without_pair(
    region: Seq<char>,
    roles: Seq<Option<Seq<char>>>,
    source: RegionRoleView,
) -> Seq<RegionRoleView>
    decreases roles.len(),
{
    if roles.len() == 0 {
        Seq::empty()
    } else {
        let before = without_pair(region, roles.drop_last(), source);
        if region == source.region && roles.last() == source.role {
            before
        } else {
            before.push(RegionRoleView { region, role: roles.last() })
        }
    }
}

/// Filtering the pairs of a region leaves those without the source.
proof fn lemma_without_pair(
    region: Seq<char>,
    roles: Seq<Option<Seq<char>>>,
    source: RegionRoleView,
)
    ensures
        roles.map_values(|role: Option<Seq<char>>| RegionRoleView { region, role }).filter(
            other_than(source),
        ) == without_pair(region, roles, source),
    decreases roles.len(),
{
    reveal(Seq::filter);
    let pairs = roles.map_values(|role: Option<Seq<char>>| RegionRoleView { region, role });
    if roles.len() > 0 {
        lemma_without_pair(region, roles.drop_last(), source);
        assert(pairs.drop_last() =~= roles.drop_last().map_values(
            |role: Option<Seq<char>>| RegionRoleView { region, role },
        ));
        assert(pairs.last() == (RegionRoleView { region, role: roles.last() }));
    }
}

/// The targets come region by region, in the order in which the command line names the regions,
/// and within a region in the order of its roles. One more region adds its pairs at the end,
/// without the source, also where it was named before.
pub proof fn law_targets_come_in_order(
    overrides: Seq<Seq<char>>,
    config: AwsConfigView,
    region: Seq<char>,
)
    requires
        config.region.contains_key(region),
    ensures
        overrides.len() > 0 ==> {
            let plan = planned(overrides, config)->Ok_0;
            let longer = planned(overrides.push(region), config)->Ok_0;
            &&& longer.source == plan.source
            &&& longer.targets == plan.targets + without_pair(
                region,
                config.region[region],
                plan.source,
            )
        },
        overrides.len() == 0 ==> {
            let plan = planned(overrides.push(region), config)->Ok_0;
            plan.targets == without_pair(region, config.region[region], plan.source)
        },
{
    let more = overrides.push(region);
    let plan = planned(more, config)->Ok_0;
    let source = plan.source;
    assert(more.drop_last() =~= overrides);
    lemma_filter_concat(pairs_of(config, overrides), pairs_in(config, region), other_than(source));
    lemma_without_pair(region, config.region[region], source);
    if overrides.len() == 0 {
        reveal(Seq::filter);
        assert(pairs_of(config, overrides) =~= Seq::empty());
        assert(plan.targets =~= without_pair(region, config.region[region], source));
    } else {
        assert(more[0] == overrides[0]);
    }
}

/// The same for a region without an entry, which adds one pair without a role.
pub proof fn law_unconfigured_target_comes_in_order(
    overrides: Seq<Seq<char>>,
    config: AwsConfigView,
    region: Seq<char>,
)
    requires
        !config.region.contains_key(region),
    ensures
        overrides.len() > 0 ==> {
            let plan = planned(overrides, config)->Ok_0;
            let longer = planned(overrides.push(region), config)->Ok_0;
            let pair = RegionRoleView { region, role: None };
            &&& longer.source == plan.source
            &&& longer.targets == if pair == plan.source {
                plan.targets
            } else {
                plan.targets.push(pair)
            }
        },
        overrides.len() == 0 ==> planned(overrides.push(region), config)->Ok_0.targets.len() == 0,
{
    let more = overrides.push(region);
    let plan = planned(more, config)->Ok_0;
    let source = plan.source;
    let none: Seq<Option<Seq<char>>> = seq![None];
    let pair = RegionRoleView { region, role: None };
    assert(more.drop_last() =~= overrides);
    lemma_filter_concat(pairs_of(config, overrides), pairs_in(config, region), other_than(source));
    lemma_without_pair(region, none, source);
    assert(none.drop_last() =~= Seq::empty());
    assert(without_pair(region, none.drop_last(), source) =~= Seq::empty());
    if overrides.len() == 0 {
        reveal(Seq::filter);
        assert(pairs_of(config, overrides) =~= Seq::empty());
        assert(without_pair(region, none, source) =~= Seq::empty());
        assert(plan.targets =~= Seq::empty());
    } else {
        assert(more[0] == overrides[0]);
        let before = planned(overrides, config)->Ok_0;
        if pair == source {
            assert(without_pair(region, none, source) =~= Seq::empty());
            assert(plan.targets =~= before.targets);
        } else {
            assert(without_pair(region, none, source) =~= seq![pair]);
            assert(plan.targets =~= before.targets.push(pair));
        }
    }
}

} // verus!
