//! Images by region and account.

use pubsys_ami::image::{Image, LaunchPermissionDef, RegionAccountImageMap};
use serde_json::Value;

fn permission_from(value: &Value) -> LaunchPermissionDef {
    let (kind, holder) = value.as_object().unwrap().iter().next().unwrap();
    let holder = holder.as_str().unwrap().to_string();
    match kind.as_str() {
        "group" => LaunchPermissionDef::Group(holder),
        "user_id" => LaunchPermissionDef::UserId(holder),
        "organization_arn" => LaunchPermissionDef::OrganizationArn(holder),
        "organizational_unit_arn" => LaunchPermissionDef::OrganizationalUnitArn(holder),
        _ => panic!("unknown permission"),
    }
}

fn permission_to(permission: &LaunchPermissionDef) -> Value {
    let (kind, holder) = match permission {
        LaunchPermissionDef::Group(h) => ("group", h),
        LaunchPermissionDef::UserId(h) => ("user_id", h),
        LaunchPermissionDef::OrganizationArn(h) => ("organization_arn", h),
        LaunchPermissionDef::OrganizationalUnitArn(h) => ("organizational_unit_arn", h),
    };
    let mut object = serde_json::Map::new();
    object.insert(kind.to_string(), Value::String(holder.clone()));
    Value::Object(object)
}

fn image_from(value: &Value) -> Image {
    Image::new(
        value["id"].as_str().unwrap(),
        value["name"].as_str().unwrap(),
        value["public"].as_bool(),
        value["launch_permissions"]
            .as_array()
            .map(|list| list.iter().map(permission_from).collect()),
    )
}

fn image_to(image: &Image) -> Value {
    let mut object = serde_json::Map::new();
    object.insert("id".to_string(), Value::String(image.id.clone()));
    object.insert("name".to_string(), Value::String(image.name.clone()));
    object.insert(
        "public".to_string(),
        image.public.map(Value::Bool).unwrap_or(Value::Null),
    );
    object.insert(
        "launch_permissions".to_string(),
        match &image.launch_permissions {
            Some(list) => Value::Array(list.iter().map(permission_to).collect()),
            None => Value::Null,
        },
    );
    Value::Object(object)
}

fn read(json: &str) -> RegionAccountImageMap {
    let value: Value = serde_json::from_str(json).unwrap();
    let mut list = Vec::new();
    for (region, accounts) in value.as_object().unwrap() {
        let mut images = Vec::new();
        for (account_id, image) in accounts.as_object().unwrap() {
            images.push((account_id.clone(), image_from(image)));
        }
        list.push((region.clone(), images));
    }
    RegionAccountImageMap::from_entries(list)
}

fn write(map: RegionAccountImageMap) -> String {
    let mut regions = serde_json::Map::new();
    for (region, images) in map.into_entries() {
        let mut accounts = serde_json::Map::new();
        for (account_id, image) in images {
            accounts.insert(account_id, image_to(&image));
        }
        regions.insert(region, Value::Object(accounts));
    }
    serde_json::to_string(&Value::Object(regions)).unwrap()
}

const NESTED: &str = r#"{
            "us-west-2": {
                "777777777777": {
                    "id": "ami-aaa",
                    "name": "my-ami",
                    "public": false,
                    "launch_permissions": []
                },
                "999999999999": {
                    "id": "ami-bbb",
                    "name": "my-ami",
                    "public": false,
                    "launch_permissions": []
                }
            },
            "us-east-1": {
                "777777777777": {
                    "id": "ami-ccc",
                    "name": "my-ami",
                    "public": true,
                    "launch_permissions": null
                }
            }
        }"#;

#[test]
fn region_account_image_map_json_round_trip() {
    let parsed = read(NESTED);

    // Two accounts in us-west-2, one in us-east-1.
    assert_eq!(parsed.accounts("us-west-2").unwrap().len(), 2);
    assert_eq!(parsed.get("us-west-2", "777777777777").unwrap().id, "ami-aaa");
    assert_eq!(parsed.get("us-west-2", "999999999999").unwrap().id, "ami-bbb");
    assert_eq!(parsed.accounts("us-east-1").unwrap().len(), 1);
    assert_eq!(
        parsed.get("us-east-1", "777777777777").unwrap().public,
        Some(true)
    );

    // Round-trips back to an equivalent structure.
    let reserialized = write(read(NESTED));
    let reparsed = read(&reserialized);
    assert_eq!(parsed, reparsed);
}

#[test]
fn region_account_image_map_single_account() {
    let mut map = RegionAccountImageMap::new();
    map.insert(
        "us-west-2".to_string(),
        "123456789012".to_string(),
        Image::new("ami-123", "my-ami", Some(false), Some(vec![])),
    );

    let json = write(map);
    let parsed = read(&json);
    assert_eq!(parsed.get("us-west-2", "123456789012").unwrap().id, "ami-123");
    assert_eq!(parsed.accounts("us-west-2").unwrap().len(), 1);
    assert_eq!(parsed.len(), 1);
}

fn plain(id: &str) -> Image {
    Image::new(id, "name", Some(false), Some(vec![]))
}

#[test]
fn new_image_keeps_what_it_is_given() {
    let image = Image::new("ami-1", "my-ami", Some(true), None);
    assert_eq!(image.id, "ami-1");
    assert_eq!(image.name, "my-ami");
    assert_eq!(image.public, Some(true));
    assert_eq!(image.launch_permissions, None);
}

#[test]
fn a_later_image_takes_the_place_of_an_earlier() {
    let mut map = RegionAccountImageMap::new();
    map.insert("r".to_string(), "a".to_string(), plain("ami-1"));
    map.insert("r".to_string(), "b".to_string(), plain("ami-2"));
    map.insert("r".to_string(), "a".to_string(), plain("ami-3"));
    assert_eq!(map.len(), 1);
    assert_eq!(map.accounts("r").unwrap().len(), 2);
    assert_eq!(map.get("r", "a").unwrap().id, "ami-3");
    assert_eq!(map.get("r", "b").unwrap().id, "ami-2");
    assert!(map.get("r", "c").is_none());
    assert!(map.get("s", "a").is_none());
    assert!(map.accounts("s").is_none());
}

#[test]
fn maps_are_equal_whatever_the_order() {
    let mut one = RegionAccountImageMap::new();
    one.insert("r".to_string(), "a".to_string(), plain("ami-1"));
    one.insert("r".to_string(), "b".to_string(), plain("ami-2"));
    one.insert("s".to_string(), "a".to_string(), plain("ami-3"));
    let mut two = RegionAccountImageMap::new();
    two.insert("s".to_string(), "a".to_string(), plain("ami-3"));
    two.insert("r".to_string(), "b".to_string(), plain("ami-2"));
    assert!(one != two);
    two.insert("r".to_string(), "a".to_string(), plain("ami-1"));
    assert!(one == two);
    two.insert("r".to_string(), "a".to_string(), plain("ami-9"));
    assert!(one != two);
}

#[test]
fn images_are_equal_by_every_field() {
    let permissions = || {
        Some(vec![
            LaunchPermissionDef::UserId("1".to_string()),
            LaunchPermissionDef::Group("all".to_string()),
        ])
    };
    let image = Image::new("i", "n", Some(true), permissions());
    assert!(image.same_as(&Image::new("i", "n", Some(true), permissions())));
    assert!(!image.same_as(&Image::new("j", "n", Some(true), permissions())));
    assert!(!image.same_as(&Image::new("i", "m", Some(true), permissions())));
    assert!(!image.same_as(&Image::new("i", "n", None, permissions())));
    assert!(!image.same_as(&Image::new("i", "n", Some(true), None)));
    assert!(!image.same_as(&Image::new("i", "n", Some(true), Some(vec![]))));
    let other = Some(vec![
        LaunchPermissionDef::UserId("1".to_string()),
        LaunchPermissionDef::OrganizationArn("all".to_string()),
    ]);
    assert!(!image.same_as(&Image::new("i", "n", Some(true), other)));
}

#[test]
fn entries_with_one_key_keep_the_later() {
    let map = RegionAccountImageMap::from_entries(vec![
        (
            "r".to_string(),
            vec![
                ("a".to_string(), plain("ami-1")),
                ("a".to_string(), plain("ami-2")),
            ],
        ),
        ("s".to_string(), vec![]),
        ("s".to_string(), vec![("b".to_string(), plain("ami-3"))]),
    ]);
    assert_eq!(map.len(), 2);
    assert_eq!(map.get("r", "a").unwrap().id, "ami-2");
    assert_eq!(map.get("s", "b").unwrap().id, "ami-3");
    let empty = RegionAccountImageMap::from_entries(vec![("t".to_string(), vec![])]);
    assert_eq!(empty.len(), 1);
    assert_eq!(empty.accounts("t").unwrap().len(), 0);
}

#[test]
fn a_region_with_permissions_round_trips() {
    let mut map = RegionAccountImageMap::new();
    let image = || {
        Image::new(
            "ami-1",
            "my-ami",
            None,
            Some(vec![
                LaunchPermissionDef::Group("all".to_string()),
                LaunchPermissionDef::UserId("123456789012".to_string()),
                LaunchPermissionDef::OrganizationArn("arn:o".to_string()),
                LaunchPermissionDef::OrganizationalUnitArn("arn:u".to_string()),
            ]),
        )
    };
    map.insert("r".to_string(), "a".to_string(), image());
    let mut same = RegionAccountImageMap::new();
    same.insert("r".to_string(), "a".to_string(), image());
    assert_eq!(read(&write(map)), same);
}

#[test]
fn the_order_of_the_entries_does_not_matter() {
    let entries = || {
        vec![
            (
                "r".to_string(),
                vec![
                    ("a".to_string(), plain("ami-1")),
                    ("b".to_string(), plain("ami-2")),
                ],
            ),
            ("s".to_string(), vec![("a".to_string(), plain("ami-3"))]),
        ]
    };
    let mut reordered = entries();
    reordered.reverse();
    for (_, accounts) in &mut reordered {
        accounts.reverse();
    }
    assert_eq!(
        RegionAccountImageMap::from_entries(entries()),
        RegionAccountImageMap::from_entries(reordered)
    );
    let again = RegionAccountImageMap::from_entries(
        RegionAccountImageMap::from_entries(entries()).into_entries(),
    );
    assert_eq!(again, RegionAccountImageMap::from_entries(entries()));
}
