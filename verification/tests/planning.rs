//! Where an image is published to, and whom that concerns.

use pubsys_ami::assoc::AssocMap;
use pubsys_ami::error::AmiError;
use pubsys_ami::identity::{get_account_id, get_account_ids, grant_account_ids};
use pubsys_ami::target::{plan, roles_for_region, AwsConfig, RegionRole};

fn text(s: &str) -> String {
    s.to_string()
}

fn target(region: &str, role: Option<&str>) -> RegionRole {
    RegionRole {
        region: text(region),
        role: role.map(text),
    }
}

fn config(regions: &[&str], roles: &[(&str, &[Option<&str>])]) -> AwsConfig {
    let mut region = AssocMap::new();
    for (name, list) in roles {
        region.insert(text(name), list.iter().map(|r| r.map(text)).collect());
    }
    AwsConfig {
        regions: regions.iter().map(|r| text(r)).collect(),
        region,
    }
}

#[test]
fn a_region_has_its_configured_roles() {
    let aws = config(&[], &[("us-west-2", &[Some("a"), None, Some("b")])]);
    assert_eq!(
        roles_for_region(&aws, &text("us-west-2")),
        vec![Some(text("a")), None, Some(text("b"))]
    );
}

#[test]
fn a_region_without_an_entry_has_no_role() {
    let aws = config(&[], &[("us-west-2", &[Some("a")])]);
    assert_eq!(roles_for_region(&aws, &text("us-east-1")), vec![None]);
}

#[test]
fn the_first_region_and_role_are_the_source() {
    let aws = config(
        &["us-west-2", "us-east-1"],
        &[
            ("us-west-2", &[Some("a"), Some("b")]),
            ("us-east-1", &[Some("a"), Some("c")]),
        ],
    );
    let plan = plan(vec![], aws).unwrap();
    assert_eq!(plan.source, target("us-west-2", Some("a")));
    assert_eq!(
        plan.targets,
        vec![
            target("us-west-2", Some("b")),
            target("us-east-1", Some("a")),
            target("us-east-1", Some("c")),
        ]
    );
}

#[test]
fn regions_of_the_command_line_come_first() {
    let aws = config(&["us-west-2", "us-east-1"], &[("eu-west-1", &[Some("e")])]);
    let plan = plan(vec![text("eu-west-1"), text("ap-south-1")], aws).unwrap();
    assert_eq!(plan.source, target("eu-west-1", Some("e")));
    assert_eq!(plan.targets, vec![target("ap-south-1", None)]);
}

#[test]
fn a_repeated_source_is_no_target_but_a_repeated_target_is_repeated() {
    let aws = config(&[], &[]);
    let plan = plan(
        vec![text("a"), text("b"), text("a"), text("b")],
        aws,
    )
    .unwrap();
    assert_eq!(plan.source, target("a", None));
    assert_eq!(plan.targets, vec![target("b", None), target("b", None)]);
}

#[test]
fn a_base_region_without_roles_uses_the_global_credentials() {
    let aws = config(&["a", "b"], &[("a", &[]), ("b", &[])]);
    let plan = plan(vec![], aws).unwrap();
    assert_eq!(plan.source, target("a", None));
    assert_eq!(plan.targets, vec![]);
}

#[test]
fn without_regions_there_is_no_plan() {
    assert_eq!(
        plan(vec![], AwsConfig::default()).unwrap_err(),
        AmiError::MissingConfig {
            missing: text("aws.regions")
        }
    );
}

#[test]
fn an_account_id_is_taken_from_the_response() {
    assert_eq!(
        get_account_id("us-west-2", Ok(Some(text("777777777777")))),
        Ok(text("777777777777"))
    );
    assert_eq!(
        get_account_id("us-west-2", Ok(None)),
        Err(AmiError::MissingInResponse {
            request_type: text("GetCallerIdentity"),
            missing: text("account"),
        })
    );
    assert_eq!(
        get_account_id("us-west-2", Err(text("denied"))),
        Err(AmiError::GetCallerIdentity {
            region: text("us-west-2"),
            source: text("denied"),
        })
    );
}

#[test]
fn account_ids_are_the_same_in_any_order() {
    let responses = |reverse: bool| {
        let mut list = vec![
            (target("a", None), Ok(Some(text("1")))),
            (target("a", Some("x")), Ok(Some(text("2")))),
            (target("b", None), Ok(Some(text("1")))),
        ];
        if reverse {
            list.reverse();
        }
        list
    };
    for reverse in [false, true] {
        let accounts = get_account_ids(responses(reverse)).unwrap();
        assert_eq!(accounts.len(), 3);
        assert_eq!(accounts.get(&target("a", None)), Some(&text("1")));
        assert_eq!(accounts.get(&target("a", Some("x"))), Some(&text("2")));
        assert_eq!(accounts.get(&target("b", None)), Some(&text("1")));
        assert_eq!(accounts.get(&target("b", Some("x"))), None);
    }
}

#[test]
fn the_first_response_without_an_account_decides() {
    let error = get_account_ids(vec![
        (target("a", None), Ok(Some(text("1")))),
        (target("b", None), Err(text("denied"))),
        (target("c", None), Ok(None)),
    ])
    .unwrap_err();
    assert_eq!(
        error,
        AmiError::GetCallerIdentity {
            region: text("b"),
            source: text("denied"),
        }
    );
}

#[test]
fn access_goes_to_the_other_accounts_each_once() {
    let accounts = get_account_ids(vec![
        (target("a", None), Ok(Some(text("1")))),
        (target("a", Some("x")), Ok(Some(text("2")))),
        (target("b", None), Ok(Some(text("2")))),
        (target("b", Some("y")), Ok(Some(text("3")))),
    ])
    .unwrap();
    let mut grants = grant_account_ids(&accounts, &text("1"));
    grants.sort();
    assert_eq!(grants, vec![text("2"), text("3")]);
}

#[test]
fn no_access_is_granted_within_the_base_account() {
    let accounts = get_account_ids(vec![
        (target("a", None), Ok(Some(text("1")))),
        (target("b", None), Ok(Some(text("1")))),
    ])
    .unwrap();
    assert!(grant_account_ids(&accounts, &text("1")).is_empty());
}

#[test]
fn distinct_regions_and_roles_make_distinct_targets() {
    let aws = config(
        &["a", "b", "c"],
        &[("a", &[Some("x"), Some("y")]), ("b", &[Some("x"), None])],
    );
    let targets = plan(vec![], aws).unwrap().targets;
    assert_eq!(targets.len(), 4);
    for (i, one) in targets.iter().enumerate() {
        for two in &targets[i + 1..] {
            assert_ne!(one, two);
        }
    }
}
