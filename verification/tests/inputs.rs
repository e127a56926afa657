//! Inputs from files, messages, and what becomes of the images.

use pubsys_ami::error::AmiError;
use pubsys_ami::files::{parse_toml_file, parse_uefi_data, parse_variant_manifest, table_from};
use pubsys_ami::image::RegionAccountImageMap;
use pubsys_ami::output::{after_write, run, Aftermath};

fn text(s: &str) -> String {
    s.to_string()
}

#[test]
fn a_toml_file_is_parsed() {
    let input = parse_toml_file("spec.toml", Ok(text("name = 'x'\n[a]\nb = 3\n"))).unwrap();
    assert_eq!(input.path, "spec.toml");
    assert_eq!(input.inner.len(), 2);
    assert_eq!(input.inner["name"].as_str(), Some("x"));
    assert_eq!(input.inner["a"]["b"].as_integer(), Some(3));
}

#[test]
fn an_empty_toml_file_is_an_empty_table() {
    let input = parse_toml_file("spec.toml", Ok(text(""))).unwrap();
    assert!(input.inner.is_empty());
}

#[test]
fn a_file_that_is_not_toml_is_refused() {
    let error = parse_toml_file("spec.toml", Ok(text("name = "))).unwrap_err();
    let expected = toml::from_str::<toml::Table>("name = ").unwrap_err();
    assert_eq!(
        error,
        AmiError::ParseToml {
            filepath: text("spec.toml"),
            source: expected.to_string(),
        }
    );
    assert!(error
        .message()
        .starts_with("Failed to parse file spec.toml as toml: TOML parse error at line 1"));
}

#[test]
fn a_parsed_table_is_handed_on() {
    let mut table = toml::Table::new();
    table.insert(text("k"), toml::Value::Boolean(true));
    let input = table_from("p", Ok(table.clone())).unwrap();
    assert_eq!(input.inner, table);
    assert_eq!(input.path, "p");
}

#[test]
fn whatever_was_parsed_is_handed_on() {
    let input = table_from("p", Ok(text("value"))).unwrap();
    assert_eq!(input.inner, "value");
    assert_eq!(input.path, "p");
    let failure = toml::from_str::<toml::Table>("= 1").unwrap_err();
    let expected = AmiError::ParseToml {
        filepath: text("p"),
        source: failure.to_string(),
    };
    assert_eq!(table_from::<u8>("p", Err(failure)).unwrap_err(), expected);
}

#[test]
fn a_file_that_cannot_be_read_is_reported() {
    let expected = AmiError::ReadFile {
        filepath: text("gone"),
        source: text("no such file"),
    };
    assert_eq!(
        parse_toml_file("gone", Err(text("no such file"))).unwrap_err(),
        expected
    );
    assert_eq!(
        parse_uefi_data("gone", Err(text("no such file"))).unwrap_err(),
        expected
    );
}

#[test]
fn uefi_data_keeps_its_path() {
    let input = parse_uefi_data("uefi.bin", Ok(text("data"))).unwrap();
    assert_eq!(input.inner, "data");
    assert_eq!(input.path, "uefi.bin");
}

#[test]
fn a_variant_manifest_keeps_its_path() {
    let input = parse_variant_manifest("Cargo.toml", Ok(42)).unwrap();
    assert_eq!(input.inner, 42);
    assert_eq!(input.path, "Cargo.toml");
    assert_eq!(
        parse_variant_manifest::<u8>("Cargo.toml", Err(text("bad"))).unwrap_err(),
        AmiError::LoadVariantManifest {
            filepath: text("Cargo.toml"),
            source: text("bad"),
        }
    );
}

#[test]
fn images_are_written_only_if_requested() {
    let map = || RegionAccountImageMap::new();
    assert_eq!(
        run(Ok(map()), Some(text("out.json"))),
        Aftermath::WriteAmis {
            path: text("out.json"),
            amis: map(),
        }
    );
    assert_eq!(run(Ok(map()), None), Aftermath::Done { result: Ok(()) });
    assert_eq!(
        run(Err(AmiError::AmiCopy), Some(text("out.json"))),
        Aftermath::Done {
            result: Err(AmiError::AmiCopy)
        }
    );
}

#[test]
fn a_failure_to_write_is_reported() {
    assert_eq!(after_write(text("out.json"), Ok(())), Ok(()));
    assert_eq!(
        after_write(text("out.json"), Err(text("full"))),
        Err(AmiError::WriteAmis {
            path: text("out.json"),
            source: text("full"),
        })
    );
}

#[test]
fn messages_tell_what_failed() {
    let s = || text("why");
    let cases = vec![
        (AmiError::AmiCopy, "Some AMIs failed to copy, see above"),
        (
            AmiError::Amispec { source: s() },
            "Failed to create an amispec from publication inputs: why",
        ),
        (AmiError::Config { source: s() }, "Error reading config: why"),
        (
            AmiError::DescribeImageAttribute {
                image_id: text("ami-1"),
                region: text("r"),
                source: s(),
            },
            "Failed to describe image attributes for image ami-1 in region r: why",
        ),
        (
            AmiError::GetAmiId {
                name: text("n"),
                arch: text("a"),
                region: text("r"),
                source: s(),
            },
            "Error getting AMI ID for a n in r: why",
        ),
        (
            AmiError::GetCallerIdentity {
                region: text("r"),
                source: s(),
            },
            "Error getting account ID in r: why",
        ),
        (
            AmiError::GetSnapshots {
                image_id: text("ami-1"),
                region: text("r"),
                source: s(),
            },
            "Failed to get snapshot IDs associated with ami-1 in r: why",
        ),
        (
            AmiError::GrantAccess {
                thing: text("snapshots"),
                region: text("r"),
                source: s(),
            },
            "Failed to grant access to snapshots in r: why",
        ),
        (
            AmiError::GrantImageAccess {
                thing: text("image"),
                region: text("r"),
                source: s(),
            },
            "Failed to grant access to image in r: why",
        ),
        (
            AmiError::IsAmiPublic {
                image_id: text("ami-1"),
                region: text("r"),
                source: s(),
            },
            "Failed to check if AMI with id ami-1 is public in r: why",
        ),
        (
            AmiError::LoadVariantManifest {
                filepath: text("f"),
                source: s(),
            },
            "Failed to load variant manifest from f: why",
        ),
        (
            AmiError::MissingArchitecture,
            "amispec rendered from pubsys inputs is missing a machine architecture.",
        ),
        (
            AmiError::MissingConfig { missing: text("x") },
            "Infra.toml is missing x",
        ),
        (
            AmiError::MissingInResponse {
                request_type: text("Get"),
                missing: text("x"),
            },
            "Response to Get was missing x",
        ),
        (
            AmiError::ParseToml {
                filepath: text("f"),
                source: s(),
            },
            "Failed to parse file f as toml: why",
        ),
        (
            AmiError::ReadFile {
                filepath: text("f"),
                source: s(),
            },
            "Failed to read file f: why",
        ),
        (
            AmiError::RegisterImage {
                name: text("n"),
                arch: text("a"),
                region: text("r"),
                source: s(),
            },
            "Error registering a n in r: why",
        ),
        (
            AmiError::WaitAmi {
                id: text("ami-1"),
                region: text("r"),
                source: s(),
            },
            "AMI 'ami-1' in r did not become available: why",
        ),
        (
            AmiError::WriteAmis {
                path: text("p"),
                source: s(),
            },
            "Failed to write AMIs to 'p': why",
        ),
    ];
    for (error, message) in cases {
        assert_eq!(error.message(), message);
    }
}
