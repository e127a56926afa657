//! The course of a publication.

use pubsys_ami::assoc::AssocMap;
use pubsys_ami::error::AmiError;
use pubsys_ami::image::{Image, LaunchPermissionDef, RegionAccount, RegionAccountImageMap};
use pubsys_ami::publish::Publication;
use pubsys_ami::stage::{
    Action, Amispec, CopyOutcome, CopyReport, CopyRequest, Event, ModifyOptions, RegisteredIds,
};
use pubsys_ami::target::{AwsConfig, RegionRole};

fn text(s: &str) -> String {
    s.to_string()
}

fn target(region: &str, role: Option<&str>) -> RegionRole {
    RegionRole {
        region: text(region),
        role: role.map(text),
    }
}

/// Three regions, of which the first has two roles.
fn config() -> Event {
    let mut region = AssocMap::new();
    region.insert(text("base"), vec![Some(text("one")), Some(text("two"))]);
    Event::ConfigLoaded(Ok(Some(AwsConfig {
        regions: vec![text("base"), text("east"), text("west")],
        region,
    })))
}

fn source() -> RegionRole {
    target("base", Some("one"))
}

fn targets() -> Vec<RegionRole> {
    vec![
        target("base", Some("two")),
        target("east", None),
        target("west", None),
    ]
}

fn amispec() -> Event {
    Event::AmispecRendered(Ok(Amispec {
        name: text("my-ami"),
        architecture: Some(text("x86_64")),
        description: Some(text("described")),
    }))
}

fn registered() -> Event {
    Event::ImageRegistered(Ok(RegisteredIds {
        image_id: text("ami-0"),
        snapshot_ids: vec![text("snap-0"), text("snap-1")],
    }))
}

fn fail() -> String {
    text("why")
}

fn drive(publication: Publication, events: Vec<Event>) -> Publication {
    let mut publication = publication;
    for event in events {
        assert!(publication.fits(&event), "{:?} does not fit", event);
        publication = publication.step(event);
    }
    publication
}

fn start() -> Publication {
    Publication::new(vec![])
}

fn until_registered() -> Publication {
    drive(
        start(),
        vec![config(), amispec(), Event::ImageSearched(Ok(None)), registered()],
    )
}

fn until_accounts() -> Publication {
    drive(
        until_registered(),
        vec![
            Event::AccountResolved(Ok(Some(text("111")))),
            Event::ImageAwaited(Ok(())),
        ],
    )
}

fn account_replies() -> Event {
    Event::AccountsResolved(vec![
        (target("west", None), Ok(Some(text("111")))),
        (target("base", Some("two")), Ok(Some(text("222")))),
        (target("east", None), Ok(Some(text("111")))),
    ])
}

fn until_search() -> Publication {
    drive(
        until_accounts(),
        vec![
            account_replies(),
            Event::AccessGranted(Ok(())),
            Event::AccessGranted(Ok(())),
        ],
    )
}

fn error_of(publication: Publication) -> AmiError {
    assert_eq!(publication.action(), Action::Finish);
    publication.finish().0.unwrap_err()
}

fn private(id: &str) -> Image {
    Image::new(id, "my-ami", Some(false), Some(vec![]))
}

fn options(ids: &[&str]) -> ModifyOptions {
    ModifyOptions {
        user_ids: ids.iter().map(|i| text(i)).collect(),
        group_names: vec![],
        organization_arns: vec![],
        organizational_unit_arns: vec![],
    }
}

#[test]
fn each_stage_asks_for_its_own() {
    let p = start();
    assert_eq!(p.action(), Action::LoadConfig);
    let p = drive(p, vec![config()]);
    assert_eq!(p.action(), Action::RenderAmispec { at: source() });
    let p = drive(p, vec![amispec()]);
    assert_eq!(
        p.action(),
        Action::FindImage {
            at: source(),
            name: text("my-ami"),
            arch: text("x86_64"),
        }
    );
    let p = drive(p, vec![Event::ImageSearched(Ok(None))]);
    assert_eq!(p.action(), Action::RegisterImage { at: source() });
    let p = drive(p, vec![registered()]);
    assert_eq!(p.action(), Action::ResolveAccount { at: source() });
    let p = drive(p, vec![Event::AccountResolved(Ok(Some(text("111"))))]);
    assert_eq!(
        p.action(),
        Action::AwaitImage {
            at: source(),
            image_id: text("ami-0"),
            state: text("available"),
            successes: 3,
        }
    );
    let p = drive(p, vec![Event::ImageAwaited(Ok(()))]);
    assert_eq!(p.action(), Action::ResolveAccounts { targets: targets() });
    let p = drive(p, vec![account_replies()]);
    assert_eq!(
        p.action(),
        Action::GrantSnapshots {
            at: source(),
            options: options(&["222"]),
            snapshot_ids: vec![text("snap-0"), text("snap-1")],
        }
    );
    let p = drive(p, vec![Event::AccessGranted(Ok(()))]);
    assert_eq!(
        p.action(),
        Action::GrantImage {
            at: source(),
            options: options(&["222"]),
            image_id: text("ami-0"),
        }
    );
    let p = drive(p, vec![Event::AccessGranted(Ok(()))]);
    assert_eq!(
        p.action(),
        Action::FindImages {
            targets: targets(),
            name: text("my-ami"),
            arch: text("x86_64"),
        }
    );
    let p = drive(
        p,
        vec![Event::ImagesSearched(vec![
            (target("west", None), Ok(None)),
            (target("east", None), Ok(Some(text("ami-e")))),
            (target("base", Some("two")), Ok(None)),
        ])],
    );
    assert_eq!(
        p.action(),
        Action::CheckPublic {
            at: target("east", None),
            image_id: text("ami-e"),
        }
    );
    let p = drive(p, vec![Event::PublicChecked(Ok(true))]);
    assert_eq!(
        p.action(),
        Action::ListPermissions {
            at: target("east", None),
            image_id: text("ami-e"),
        }
    );
    let p = drive(
        p,
        vec![Event::PermissionsListed(Ok(vec![
            LaunchPermissionDef::Group(text("all")),
        ]))],
    );
    let request = |target: RegionRole| CopyRequest {
        target,
        description: Some(text("described")),
        name: text("my-ami"),
        source_image_id: text("ami-0"),
        source_region: text("base"),
        copy_image_tags: true,
    };
    assert_eq!(
        p.action(),
        Action::CopyImages {
            requests: vec![
                request(target("west", None)),
                request(target("base", Some("two"))),
            ],
        }
    );
    let p = drive(
        p,
        vec![Event::ImagesCopied(vec![
            (target("base", Some("two")), Ok(Some(text("ami-b")))),
            (target("west", None), Ok(Some(text("ami-w")))),
        ])],
    );
    assert_eq!(p.action(), Action::Finish);
    let (outcome, reports) = p.finish();
    let mut expected = RegionAccountImageMap::new();
    expected.insert(text("base"), text("111"), private("ami-0"));
    expected.insert(text("base"), text("222"), private("ami-b"));
    expected.insert(text("west"), text("111"), private("ami-w"));
    expected.insert(
        text("east"),
        text("111"),
        Image::new(
            "ami-e",
            "my-ami",
            Some(true),
            Some(vec![LaunchPermissionDef::Group(text("all"))]),
        ),
    );
    assert_eq!(outcome.unwrap(), expected);
    let report = |region: &str, account: &str, id: &str| CopyReport {
        at: RegionAccount {
            region: text(region),
            account_id: text(account),
        },
        outcome: CopyOutcome::Registered(text(id)),
    };
    assert_eq!(
        reports,
        vec![
            report("base", "222", "ami-b"),
            report("west", "111", "ami-w"),
        ]
    );
}

#[test]
fn an_image_that_exists_is_not_registered_again() {
    let p = drive(
        start(),
        vec![
            config(),
            amispec(),
            Event::ImageSearched(Ok(Some(text("ami-f")))),
        ],
    );
    assert_eq!(
        p.action(),
        Action::ListSnapshots {
            at: source(),
            image_id: text("ami-f"),
        }
    );
    let p = drive(p, vec![Event::SnapshotsListed(Ok(vec![text("snap-f")]))]);
    assert_eq!(
        p.action(),
        Action::CheckPublic {
            at: source(),
            image_id: text("ami-f"),
        }
    );
    let p = drive(p, vec![Event::PublicChecked(Ok(true))]);
    assert_eq!(
        p.action(),
        Action::ListPermissions {
            at: source(),
            image_id: text("ami-f"),
        }
    );
    let p = drive(
        p,
        vec![
            Event::PermissionsListed(Ok(vec![LaunchPermissionDef::UserId(text("5"))])),
            Event::AccountResolved(Ok(Some(text("111")))),
        ],
    );
    assert_eq!(
        p.action(),
        Action::AwaitImage {
            at: source(),
            image_id: text("ami-f"),
            state: text("available"),
            successes: 1,
        }
    );
}

#[test]
fn without_targets_the_source_is_all() {
    let p = drive(
        Publication::new(vec![text("only")]),
        vec![
            Event::ConfigLoaded(Ok(None)),
            amispec(),
            Event::ImageSearched(Ok(None)),
            registered(),
            Event::AccountResolved(Ok(Some(text("111")))),
        ],
    );
    assert_eq!(p.action(), Action::Finish);
    let (outcome, reports) = p.finish();
    let mut expected = RegionAccountImageMap::new();
    expected.insert(text("only"), text("111"), private("ami-0"));
    assert_eq!(outcome.unwrap(), expected);
    assert!(reports.is_empty());
}

#[test]
fn within_one_account_no_access_is_granted() {
    let p = drive(
        until_accounts(),
        vec![Event::AccountsResolved(
            targets()
                .into_iter()
                .map(|t| (t, Ok(Some(text("111")))))
                .collect(),
        )],
    );
    assert_eq!(
        p.action(),
        Action::FindImages {
            targets: targets(),
            name: text("my-ami"),
            arch: text("x86_64"),
        }
    );
}

#[test]
fn with_the_image_everywhere_nothing_is_copied() {
    let p = drive(
        until_search(),
        vec![
            Event::ImagesSearched(vec![
                (target("west", None), Ok(Some(text("ami-w")))),
                (target("base", Some("two")), Ok(Some(text("ami-b")))),
                (target("east", None), Ok(Some(text("ami-e")))),
            ]),
            Event::PublicChecked(Ok(false)),
            Event::PermissionsListed(Ok(vec![])),
            Event::PublicChecked(Ok(false)),
            Event::PermissionsListed(Ok(vec![])),
            Event::PublicChecked(Ok(false)),
            Event::PermissionsListed(Ok(vec![])),
        ],
    );
    let (outcome, reports) = p.finish();
    let amis = outcome.unwrap();
    assert_eq!(amis.len(), 3);
    assert_eq!(amis.get("base", "111").unwrap().id, "ami-0");
    assert_eq!(amis.get("base", "222").unwrap().id, "ami-b");
    assert_eq!(amis.get("east", "111").unwrap().id, "ami-e");
    assert_eq!(amis.get("west", "111").unwrap().id, "ami-w");
    assert!(reports.is_empty());
}

fn until_copies() -> Publication {
    drive(
        until_search(),
        vec![Event::ImagesSearched(
            targets().into_iter().map(|t| (t, Ok(None))).collect(),
        )],
    )
}

#[test]
fn failed_copies_do_not_hide_the_others() {
    let p = drive(
        until_copies(),
        vec![Event::ImagesCopied(vec![
            (target("west", None), Err(Some(text("Throttled")))),
            (target("east", None), Ok(Some(text("ami-e")))),
            (target("base", Some("two")), Ok(None)),
        ])],
    );
    let (outcome, reports) = p.finish();
    assert_eq!(outcome.unwrap_err(), AmiError::AmiCopy);
    let at = |region: &str, account: &str| RegionAccount {
        region: text(region),
        account_id: text(account),
    };
    assert_eq!(
        reports,
        vec![
            CopyReport {
                at: at("west", "111"),
                outcome: CopyOutcome::Failed(text("Throttled")),
            },
            CopyReport {
                at: at("east", "111"),
                outcome: CopyOutcome::Registered(text("ami-e")),
            },
            CopyReport {
                at: at("base", "222"),
                outcome: CopyOutcome::NoImageId,
            },
        ]
    );
}

#[test]
fn a_failure_without_a_code_is_unknown() {
    let p = drive(
        until_copies(),
        vec![Event::ImagesCopied(
            targets().into_iter().map(|t| (t, Err(None))).collect(),
        )],
    );
    let (outcome, reports) = p.finish();
    assert_eq!(outcome.unwrap_err(), AmiError::AmiCopy);
    assert_eq!(reports.len(), 3);
    for report in reports {
        assert_eq!(report.outcome, CopyOutcome::Failed(text("unknown")));
    }
}

#[test]
fn copies_leave_the_same_in_any_order() {
    let replies = |reverse: bool| {
        let mut list: Vec<_> = targets()
            .into_iter()
            .map(|t| {
                let id = format!("ami-{}", t.region);
                (t, Ok(Some(id)))
            })
            .collect();
        if reverse {
            list.reverse();
        }
        Event::ImagesCopied(list)
    };
    let one = drive(until_copies(), vec![replies(false)]).finish().0;
    let two = drive(until_copies(), vec![replies(true)]).finish().0;
    assert_eq!(one.unwrap(), two.unwrap());
}

#[test]
fn the_configuration_has_to_load_and_name_regions() {
    assert_eq!(
        error_of(drive(start(), vec![Event::ConfigLoaded(Err(fail()))])),
        AmiError::Config { source: fail() }
    );
    assert_eq!(
        error_of(drive(start(), vec![Event::ConfigLoaded(Ok(None))])),
        AmiError::MissingConfig {
            missing: text("aws.regions")
        }
    );
}

#[test]
fn the_amispec_has_to_render_and_name_an_architecture() {
    assert_eq!(
        error_of(drive(
            start(),
            vec![config(), Event::AmispecRendered(Err(fail()))]
        )),
        AmiError::Amispec { source: fail() }
    );
    let bare = Event::AmispecRendered(Ok(Amispec {
        name: text("my-ami"),
        architecture: None,
        description: None,
    }));
    assert_eq!(
        error_of(drive(start(), vec![config(), bare])),
        AmiError::MissingArchitecture
    );
}

#[test]
fn failures_at_the_source_end_the_publication() {
    let found = || Event::ImageSearched(Ok(Some(text("ami-f"))));
    assert_eq!(
        error_of(drive(
            start(),
            vec![config(), amispec(), Event::ImageSearched(Err(fail()))]
        )),
        AmiError::GetAmiId {
            name: text("my-ami"),
            arch: text("x86_64"),
            region: text("base"),
            source: fail(),
        }
    );
    assert_eq!(
        error_of(drive(
            start(),
            vec![
                config(),
                amispec(),
                found(),
                Event::SnapshotsListed(Err(fail()))
            ]
        )),
        AmiError::GetSnapshots {
            image_id: text("ami-f"),
            region: text("base"),
            source: fail(),
        }
    );
    assert_eq!(
        error_of(drive(
            start(),
            vec![
                config(),
                amispec(),
                found(),
                Event::SnapshotsListed(Ok(vec![])),
                Event::PublicChecked(Err(fail())),
            ]
        )),
        AmiError::IsAmiPublic {
            image_id: text("ami-f"),
            region: text("base"),
            source: fail(),
        }
    );
    assert_eq!(
        error_of(drive(
            start(),
            vec![
                config(),
                amispec(),
                found(),
                Event::SnapshotsListed(Ok(vec![])),
                Event::PublicChecked(Ok(false)),
                Event::PermissionsListed(Err(fail())),
            ]
        )),
        AmiError::DescribeImageAttribute {
            image_id: text("ami-f"),
            region: text("base"),
            source: fail(),
        }
    );
    assert_eq!(
        error_of(drive(
            start(),
            vec![
                config(),
                amispec(),
                Event::ImageSearched(Ok(None)),
                Event::ImageRegistered(Err(fail())),
            ]
        )),
        AmiError::RegisterImage {
            name: text("my-ami"),
            arch: text("x86_64"),
            region: text("base"),
            source: fail(),
        }
    );
    assert_eq!(
        error_of(drive(
            until_registered(),
            vec![Event::AccountResolved(Err(fail()))]
        )),
        AmiError::GetCallerIdentity {
            region: text("base"),
            source: fail(),
        }
    );
    assert_eq!(
        error_of(drive(
            until_registered(),
            vec![
                Event::AccountResolved(Ok(Some(text("111")))),
                Event::ImageAwaited(Err(fail())),
            ]
        )),
        AmiError::WaitAmi {
            id: text("ami-0"),
            region: text("base"),
            source: fail(),
        }
    );
}

#[test]
fn failures_to_grant_access_end_the_publication() {
    assert_eq!(
        error_of(drive(
            until_accounts(),
            vec![account_replies(), Event::AccessGranted(Err(fail()))]
        )),
        AmiError::GrantAccess {
            thing: text("snapshots"),
            region: text("base"),
            source: fail(),
        }
    );
    assert_eq!(
        error_of(drive(
            until_accounts(),
            vec![
                account_replies(),
                Event::AccessGranted(Ok(())),
                Event::AccessGranted(Err(fail())),
            ]
        )),
        AmiError::GrantImageAccess {
            thing: text("image"),
            region: text("base"),
            source: fail(),
        }
    );
}

#[test]
fn failures_at_a_target_end_the_publication() {
    let replies = |west: Result<Option<String>, String>| {
        Event::ImagesSearched(vec![
            (target("base", Some("two")), Ok(None)),
            (target("west", None), west),
            (target("east", None), Ok(None)),
        ])
    };
    assert_eq!(
        error_of(drive(until_search(), vec![replies(Err(fail()))])),
        AmiError::GetAmiId {
            name: text("my-ami"),
            arch: text("x86_64"),
            region: text("west"),
            source: fail(),
        }
    );
    assert_eq!(
        error_of(drive(
            until_search(),
            vec![
                replies(Ok(Some(text("ami-w")))),
                Event::PublicChecked(Err(fail())),
            ]
        )),
        AmiError::IsAmiPublic {
            image_id: text("ami-w"),
            region: text("west"),
            source: fail(),
        }
    );
    assert_eq!(
        error_of(drive(
            until_search(),
            vec![
                replies(Ok(Some(text("ami-w")))),
                Event::PublicChecked(Ok(true)),
                Event::PermissionsListed(Err(fail())),
            ]
        )),
        AmiError::DescribeImageAttribute {
            image_id: text("ami-w"),
            region: text("west"),
            source: fail(),
        }
    );
}

#[test]
fn only_an_answer_to_the_question_fits() {
    let p = start();
    assert!(!p.fits(&amispec()));
    assert!(p.fits(&config()));
    let p = until_accounts();
    assert!(p.fits(&account_replies()));
    // A target is missing.
    assert!(!p.fits(&Event::AccountsResolved(vec![
        (target("west", None), Ok(None)),
        (target("east", None), Ok(None)),
    ])));
    // A target was not asked about.
    assert!(!p.fits(&Event::AccountsResolved(vec![
        (target("west", None), Ok(None)),
        (target("east", None), Ok(None)),
        (target("base", Some("two")), Ok(None)),
        (target("base", Some("one")), Ok(None)),
    ])));
    let p = until_copies();
    assert!(!p.fits(&Event::ImagesCopied(vec![])));
    assert!(!p.fits(&Event::ImagesSearched(vec![])));
    let end = drive(start(), vec![Event::ConfigLoaded(Err(fail()))]);
    assert!(!end.fits(&config()));
}

#[test]
fn a_failed_search_is_come_upon_after_an_image_that_was_found() {
    let p = drive(
        until_search(),
        vec![Event::ImagesSearched(vec![
            (target("east", None), Ok(Some(text("ami-e")))),
            (target("west", None), Err(fail())),
            (target("base", Some("two")), Ok(None)),
        ])],
    );
    assert_eq!(
        p.action(),
        Action::CheckPublic {
            at: target("east", None),
            image_id: text("ami-e"),
        }
    );
    let p = drive(
        p,
        vec![
            Event::PublicChecked(Ok(false)),
            Event::PermissionsListed(Ok(vec![])),
        ],
    );
    assert_eq!(
        error_of(p),
        AmiError::GetAmiId {
            name: text("my-ami"),
            arch: text("x86_64"),
            region: text("west"),
            source: fail(),
        }
    );
}

#[test]
fn every_image_bears_the_rendered_name() {
    let p = drive(
        until_copies(),
        vec![Event::ImagesCopied(
            targets()
                .into_iter()
                .map(|t| (t, Ok(Some(text("ami-c")))))
                .collect(),
        )],
    );
    let amis = p.finish().0.unwrap();
    for (region, account) in [
        ("base", "111"),
        ("base", "222"),
        ("east", "111"),
        ("west", "111"),
    ] {
        let image = amis.get(region, account).unwrap();
        assert_eq!(image.name, "my-ami");
        assert_eq!(image.public, Some(false));
        assert_eq!(image.launch_permissions, Some(vec![]));
    }
}

#[test]
fn an_account_that_is_missing_in_the_response_ends_the_publication() {
    let missing = AmiError::MissingInResponse {
        request_type: text("GetCallerIdentity"),
        missing: text("account"),
    };
    assert_eq!(
        error_of(drive(
            until_registered(),
            vec![Event::AccountResolved(Ok(None))]
        )),
        missing
    );
    let mut replies: Vec<_> = targets()
        .into_iter()
        .map(|t| (t, Ok(Some(text("111")))))
        .collect();
    replies[1].1 = Ok(None);
    replies[2].1 = Err(fail());
    assert_eq!(
        error_of(drive(
            until_accounts(),
            vec![Event::AccountsResolved(replies)]
        )),
        missing
    );
}

/// The answers of a run in which every image is found, with these IDs.
fn all_found(ids: [&str; 4]) -> Publication {
    let [base, base_two, east, west] = ids;
    let described = || {
        vec![
            Event::PublicChecked(Ok(false)),
            Event::PermissionsListed(Ok(vec![])),
        ]
    };
    let mut events = vec![
        config(),
        amispec(),
        Event::ImageSearched(Ok(Some(text(base)))),
        Event::SnapshotsListed(Ok(vec![text("snap-0")])),
    ];
    events.extend(described());
    events.push(Event::AccountResolved(Ok(Some(text("111")))));
    events.push(Event::ImageAwaited(Ok(())));
    events.push(account_replies());
    events.push(Event::AccessGranted(Ok(())));
    events.push(Event::AccessGranted(Ok(())));
    events.push(Event::ImagesSearched(vec![
        (target("base", Some("two")), Ok(Some(text(base_two)))),
        (target("east", None), Ok(Some(text(east)))),
        (target("west", None), Ok(Some(text(west)))),
    ]));
    for _ in 0..3 {
        events.extend(described());
    }
    let mut publication = start();
    for event in events {
        let action = publication.action();
        assert!(!matches!(action, Action::RegisterImage { .. }));
        assert!(!matches!(action, Action::CopyImages { .. }));
        publication = drive(publication, vec![event]);
    }
    publication
}

#[test]
fn a_second_run_changes_nothing() {
    let first = drive(
        until_copies(),
        vec![Event::ImagesCopied(vec![
            (target("west", None), Ok(Some(text("ami-w")))),
            (target("base", Some("two")), Ok(Some(text("ami-b")))),
            (target("east", None), Ok(Some(text("ami-e")))),
        ])],
    );
    let left = first.finish().0.unwrap();
    let second = all_found(["ami-0", "ami-b", "ami-e", "ami-w"]);
    assert_eq!(second.action(), Action::Finish);
    let (again, reports) = second.finish();
    assert_eq!(again.unwrap(), left);
    assert!(reports.is_empty());
}

#[test]
fn each_place_has_its_own_image() {
    let p = drive(
        until_search(),
        vec![
            Event::ImagesSearched(vec![
                (target("west", None), Ok(None)),
                (target("base", Some("two")), Ok(Some(text("ami-b")))),
                (target("east", None), Ok(None)),
            ]),
            Event::PublicChecked(Ok(true)),
            Event::PermissionsListed(Ok(vec![LaunchPermissionDef::UserId(text("9"))])),
            Event::ImagesCopied(vec![
                (target("east", None), Ok(Some(text("ami-e")))),
                (target("west", None), Ok(Some(text("ami-w")))),
            ]),
        ],
    );
    let amis = p.finish().0.unwrap();
    assert_eq!(amis.get("base", "111"), Some(&private("ami-0")));
    assert_eq!(amis.get("east", "111"), Some(&private("ami-e")));
    assert_eq!(amis.get("west", "111"), Some(&private("ami-w")));
    assert_eq!(
        amis.get("base", "222"),
        Some(&Image::new(
            "ami-b",
            "my-ami",
            Some(true),
            Some(vec![LaunchPermissionDef::UserId(text("9"))]),
        ))
    );
}

#[test]
fn a_failed_public_check_names_the_region_that_was_checked() {
    let mut regions = Publication::new(vec![text("us-west-2"), text("us-east-1")]);
    regions = drive(
        regions,
        vec![
            Event::ConfigLoaded(Ok(None)),
            amispec(),
            Event::ImageSearched(Ok(None)),
            registered(),
            Event::AccountResolved(Ok(Some(text("111")))),
            Event::ImageAwaited(Ok(())),
            Event::AccountsResolved(vec![(target("us-east-1", None), Ok(Some(text("111"))))]),
            Event::ImagesSearched(vec![(
                target("us-east-1", None),
                Ok(Some(text("ami-ccc"))),
            )]),
            Event::PublicChecked(Err(fail())),
        ],
    );
    let error = error_of(regions);
    assert_eq!(
        error.message(),
        "Failed to check if AMI with id ami-ccc is public in us-east-1: why"
    );
}
