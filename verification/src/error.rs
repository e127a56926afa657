//! What can go wrong while an image is published.

use vstd::prelude::*;

verus! {

/// Why a publication failed. A `source` is the description of the failure underneath.
#[derive(Debug, PartialEq, Eq)]
pub enum AmiError {
    /// Some of the copies failed.
    AmiCopy,
    /// The registration options could not be rendered.
    Amispec { source: String },
    /// The configuration could not be read.
    Config { source: String },
    /// The launch permissions of an image could not be listed.
    DescribeImageAttribute { image_id: String, region: String, source: String },
    /// The search for an image by its name failed.
    GetAmiId { name: String, arch: String, region: String, source: String },
    /// The request for an account ID failed.
    GetCallerIdentity { region: String, source: String },
    /// The snapshots of an image could not be listed.
    GetSnapshots { image_id: String, region: String, source: String },
    /// Access to the snapshots could not be granted.
    GrantAccess { thing: String, region: String, source: String },
    /// Access to the image could not be granted.
    GrantImageAccess { thing: String, region: String, source: String },
    /// It could not be found out whether an image is public.
    IsAmiPublic { image_id: String, region: String, source: String },
    /// The variant manifest could not be loaded.
    LoadVariantManifest { filepath: String, source: String },
    /// The registration options name no architecture.
    MissingArchitecture,
    /// The configuration lacks something.
    MissingConfig { missing: String },
    /// A response lacks something.
    MissingInResponse { request_type: String, missing: String },
    /// A file is not valid TOML.
    ParseToml { filepath: String, source: String },
    /// A file could not be read.
    ReadFile { filepath: String, source: String },
    /// The image could not be registered.
    RegisterImage { name: String, arch: String, region: String, source: String },
    /// The image did not become available.
    WaitAmi { id: String, region: String, source: String },
    /// The published images could not be written to a file.
    WriteAmis { path: String, source: String },
}

/// An [`AmiError`], each text by its characters.
pub enum AmiErrorView {
    AmiCopy,
    Amispec { source: Seq<char> },
    Config { source: Seq<char> },
    DescribeImageAttribute { image_id: Seq<char>, region: Seq<char>, source: Seq<char> },
    GetAmiId { name: Seq<char>, arch: Seq<char>, region: Seq<char>, source: Seq<char> },
    GetCallerIdentity { region: Seq<char>, source: Seq<char> },
    GetSnapshots { image_id: Seq<char>, region: Seq<char>, source: Seq<char> },
    GrantAccess { thing: Seq<char>, region: Seq<char>, source: Seq<char> },
    GrantImageAccess { thing: Seq<char>, region: Seq<char>, source: Seq<char> },
    IsAmiPublic { image_id: Seq<char>, region: Seq<char>, source: Seq<char> },
    LoadVariantManifest { filepath: Seq<char>, source: Seq<char> },
    MissingArchitecture,
    MissingConfig { missing: Seq<char> },
    MissingInResponse { request_type: Seq<char>, missing: Seq<char> },
    ParseToml { filepath: Seq<char>, source: Seq<char> },
    ReadFile { filepath: Seq<char>, source: Seq<char> },
    RegisterImage { name: Seq<char>, arch: Seq<char>, region: Seq<char>, source: Seq<char> },
    WaitAmi { id: Seq<char>, region: Seq<char>, source: Seq<char> },
    WriteAmis { path: Seq<char>, source: Seq<char> },
}

impl View for AmiError {
    type V = AmiErrorView;

    open spec fn view(&self) -> AmiErrorView {
        match self {
            AmiError::AmiCopy => AmiErrorView::AmiCopy,
            AmiError::Amispec { source } => AmiErrorView::Amispec { source: source@ },
            AmiError::Config { source } => AmiErrorView::Config { source: source@ },
            AmiError::DescribeImageAttribute { image_id, region, source } => {
                AmiErrorView::DescribeImageAttribute {
                    image_id: image_id@,
                    region: region@,
                    source: source@,
                }
            },
            AmiError::GetAmiId { name, arch, region, source } => AmiErrorView::GetAmiId {
                name: name@,
                arch: arch@,
                region: region@,
                source: source@,
            },
            AmiError::GetCallerIdentity { region, source } => AmiErrorView::GetCallerIdentity {
                region: region@,
                source: source@,
            },
            AmiError::GetSnapshots { image_id, region, source } => AmiErrorView::GetSnapshots {
                image_id: image_id@,
                region: region@,
                source: source@,
            },
            AmiError::GrantAccess { thing, region, source } => AmiErrorView::GrantAccess {
                thing: thing@,
                region: region@,
                source: source@,
            },
            AmiError::GrantImageAccess { thing, region, source } => AmiErrorView::GrantImageAccess {
                thing: thing@,
                region: region@,
                source: source@,
            },
            AmiError::IsAmiPublic { image_id, region, source } => AmiErrorView::IsAmiPublic {
                image_id: image_id@,
                region: region@,
                source: source@,
            },
            AmiError::LoadVariantManifest { filepath, source } => {
                AmiErrorView::LoadVariantManifest { filepath: filepath@, source: source@ }
            },
            AmiError::MissingArchitecture => AmiErrorView::MissingArchitecture,
            AmiError::MissingConfig { missing } => AmiErrorView::MissingConfig {
                missing: missing@,
            },
            AmiError::MissingInResponse { request_type, missing } => {
                AmiErrorView::MissingInResponse { request_type: request_type@, missing: missing@ }
            },
            AmiError::ParseToml { filepath, source } => AmiErrorView::ParseToml {
                filepath: filepath@,
                source: source@,
            },
            AmiError::ReadFile { filepath, source } => AmiErrorView::ReadFile {
                filepath: filepath@,
                source: source@,
            },
            AmiError::RegisterImage { name, arch, region, source } => AmiErrorView::RegisterImage {
                name: name@,
                arch: arch@,
                region: region@,
                source: source@,
            },
            AmiError::WaitAmi { id, region, source } => AmiErrorView::WaitAmi {
                id: id@,
                region: region@,
                source: source@,
            },
            AmiError::WriteAmis { path, source } => AmiErrorView::WriteAmis {
                path: path@,
                source: source@,
            },
        }
    }
}

impl DeepView for AmiError {
    type V = AmiErrorView;

    open spec fn deep_view(&self) -> AmiErrorView {
        self@
    }
}

impl AmiErrorView {
    /// The message that tells a user of the failure.
    pub open spec fn message(self) -> Seq<char> {
        match self {
            AmiErrorView::AmiCopy => {
                "Some AMIs failed to copy, see above"@
            },
            AmiErrorView::Amispec { source } => {
                "Failed to create an amispec from publication inputs: "@ + source
            },
            AmiErrorView::Config { source } => {
                "Error reading config: "@ + source
            },
            AmiErrorView::DescribeImageAttribute { image_id, region, source } => {
                "Failed to describe image attributes for image "@ + image_id + " in region "@
                    + region + ": "@ + source
            },
            AmiErrorView::GetAmiId { name, arch, region, source } => {
                "Error getting AMI ID for "@ + arch + " "@ + name + " in "@ + region + ": "@
                    + source
            },
            AmiErrorView::GetCallerIdentity { region, source } => {
                "Error getting account ID in "@ + region + ": "@ + source
            },
            AmiErrorView::GetSnapshots { image_id, region, source } => {
                "Failed to get snapshot IDs associated with "@ + image_id + " in "@ + region + ": "@
                    + source
            },
            AmiErrorView::GrantAccess { thing, region, source } => {
                "Failed to grant access to "@ + thing + " in "@ + region + ": "@ + source
            },
            AmiErrorView::GrantImageAccess { thing, region, source } => {
                "Failed to grant access to "@ + thing + " in "@ + region + ": "@ + source
            },
            AmiErrorView::IsAmiPublic { image_id, region, source } => {
                "Failed to check if AMI with id "@ + image_id + " is public in "@ + region + ": "@
                    + source
            },
            AmiErrorView::LoadVariantManifest { filepath, source } => {
                "Failed to load variant manifest from "@ + filepath + ": "@ + source
            },
            AmiErrorView::MissingArchitecture => {
                "amispec rendered from pubsys inputs is missing a machine architecture."@
            },
            AmiErrorView::MissingConfig { missing } => {
                "Infra.toml is missing "@ + missing
            },
            AmiErrorView::MissingInResponse { request_type, missing } => {
                "Response to "@ + request_type + " was missing "@ + missing
            },
            AmiErrorView::ParseToml { filepath, source } => {
                "Failed to parse file "@ + filepath + " as toml: "@ + source
            },
            AmiErrorView::ReadFile { filepath, source } => {
                "Failed to read file "@ + filepath + ": "@ + source
            },
            AmiErrorView::RegisterImage { name, arch, region, source } => {
                "Error registering "@ + arch + " "@ + name + " in "@ + region + ": "@ + source
            },
            AmiErrorView::WaitAmi { id, region, source } => {
                "AMI '"@ + id + "' in "@ + region + " did not become available: "@ + source
            },
            AmiErrorView::WriteAmis { path, source } => {
                "Failed to write AMIs to '"@ + path + "': "@ + source
            },
        }
    }
}

impl AmiError {
    /// The message that tells a user of the failure.
    pub fn message(&self) -> (text: String)
        ensures
            text@ == self@.message(),
    {
        match self {
            AmiError::AmiCopy => {
                "Some AMIs failed to copy, see above".to_owned()
            },
            AmiError::Amispec { source } => {
                "Failed to create an amispec from publication inputs: ".to_owned()
                    .concat(source.as_str())
            },
            AmiError::Config { source } => {
                "Error reading config: ".to_owned().concat(source.as_str())
            },
            AmiError::DescribeImageAttribute { image_id, region, source } => {
                "Failed to describe image attributes for image ".to_owned()
                    .concat(image_id.as_str())
                    .concat(" in region ")
                    .concat(region.as_str())
                    .concat(": ")
                    .concat(source.as_str())
            },
            AmiError::GetAmiId { name, arch, region, source } => {
                "Error getting AMI ID for ".to_owned()
                    .concat(arch.as_str())
                    .concat(" ")
                    .concat(name.as_str())
                    .concat(" in ")
                    .concat(region.as_str())
                    .concat(": ")
                    .concat(source.as_str())
            },
            AmiError::GetCallerIdentity { region, source } => {
                "Error getting account ID in ".to_owned()
                    .concat(region.as_str())
                    .concat(": ")
                    .concat(source.as_str())
            },
            AmiError::GetSnapshots { image_id, region, source } => {
                "Failed to get snapshot IDs associated with ".to_owned()
                    .concat(image_id.as_str())
                    .concat(" in ")
                    .concat(region.as_str())
                    .concat(": ")
                    .concat(source.as_str())
            },
            AmiError::GrantAccess { thing, region, source } => {
                "Failed to grant access to ".to_owned()
                    .concat(thing.as_str())
                    .concat(" in ")
                    .concat(region.as_str())
                    .concat(": ")
                    .concat(source.as_str())
            },
            AmiError::GrantImageAccess { thing, region, source } => {
                "Failed to grant access to ".to_owned()
                    .concat(thing.as_str())
                    .concat(" in ")
                    .concat(region.as_str())
                    .concat(": ")
                    .concat(source.as_str())
            },
            AmiError::IsAmiPublic { image_id, region, source } => {
                "Failed to check if AMI with id ".to_owned()
                    .concat(image_id.as_str())
                    .concat(" is public in ")
                    .concat(region.as_str())
                    .concat(": ")
                    .concat(source.as_str())
            },
            AmiError::LoadVariantManifest { filepath, source } => {
                "Failed to load variant manifest from ".to_owned()
                    .concat(filepath.as_str())
                    .concat(": ")
                    .concat(source.as_str())
            },
            AmiError::MissingArchitecture => {
                "amispec rendered from pubsys inputs is missing a machine architecture.".to_owned()
            },
            AmiError::MissingConfig { missing } => {
                "Infra.toml is missing ".to_owned().concat(missing.as_str())
            },
            AmiError::MissingInResponse { request_type, missing } => {
                "Response to ".to_owned()
                    .concat(request_type.as_str())
                    .concat(" was missing ")
                    .concat(missing.as_str())
            },
            AmiError::ParseToml { filepath, source } => {
                "Failed to parse file ".to_owned()
                    .concat(filepath.as_str())
                    .concat(" as toml: ")
                    .concat(source.as_str())
            },
            AmiError::ReadFile { filepath, source } => {
                "Failed to read file ".to_owned()
                    .concat(filepath.as_str())
                    .concat(": ")
                    .concat(source.as_str())
            },
            AmiError::RegisterImage { name, arch, region, source } => {
                "Error registering ".to_owned()
                    .concat(arch.as_str())
                    .concat(" ")
                    .concat(name.as_str())
                    .concat(" in ")
                    .concat(region.as_str())
                    .concat(": ")
                    .concat(source.as_str())
            },
            AmiError::WaitAmi { id, region, source } => {
                "AMI '".to_owned()
                    .concat(id.as_str())
                    .concat("' in ")
                    .concat(region.as_str())
                    .concat(" did not become available: ")
                    .concat(source.as_str())
            },
            AmiError::WriteAmis { path, source } => {
                "Failed to write AMIs to '".to_owned()
                    .concat(path.as_str())
                    .concat("': ")
                    .concat(source.as_str())
            },
        }
    }
}

} // verus!
