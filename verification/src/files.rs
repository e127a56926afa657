//! Command line inputs that are read from files.

use crate::error::{AmiError, AmiErrorView};
use vstd::prelude::*;

verus! {

/// The map type behind `toml::Table`.
#[verifier::external_type_specification]
#[verifier::external_body]
#[verifier::reject_recursive_types(K)]
#[verifier::reject_recursive_types(V)]
pub struct ExTomlMap<K, V>(toml::map::Map<K, V>);

/// A value in a TOML document.
#[verifier::external_type_specification]
#[verifier::external_body]
pub struct ExTomlValue(toml::Value);

/// Why a text is not a TOML document.
#[verifier::external_type_specification]
#[verifier::external_body]
pub struct ExTomlFailure(toml::de::Error);

/// What `toml::from_str` makes of a text when it is asked for a table.
pub uninterp spec fn toml_document(text: Seq<char>) -> Result<toml::Table, toml::de::Error>;

/// Calls `toml::from_str`, for a table. The result is a function of the text alone.
#[verifier::external_body]
fn read_table(text: &str) -> (parsed: Result<toml::Table, toml::de::Error>)
    ensures
        parsed == toml_document(text@),
{
    toml::from_str(text)
}

/// The text that the `Display` of `toml::de::Error` writes for an error.
pub uninterp spec fn toml_failure_text(failure: toml::de::Error) -> Seq<char>;

/// Calls `to_string` on a `toml::de::Error`. The text is a function of the error alone.
#[verifier::external_body]
fn describe(failure: &toml::de::Error) -> (text: String)
    ensures
        text@ == toml_failure_text(*failure),
{
    failure.to_string()
}

/// Something that was loaded from a file, with the path of the file, so that a message about it
/// can name its origin.
#[derive(Clone, Debug, PartialEq, Eq)]
pub struct FromPath<T> {
    pub inner: T,
    pub path: String,
}

/// Whether a loaded value is the given one, with the given path.
pub open spec fn is_from<T>(loaded: FromPath<T>, inner: T, path: Seq<char>) -> bool {
    loaded.inner == inner && loaded.path@ == path
}

/// Makes an input of what a TOML document was parsed into.
pub fn table_from<T>(filepath: &str, parsed: Result<T, toml::de::Error>) -> (input: Result<
    FromPath<T>,
    AmiError,
>)
    ensures
        match (parsed, input) {
            (Ok(value), Ok(i)) => is_from(i, value, filepath@),
            (Err(failure), Err(e)) => e@ == (AmiErrorView::ParseToml {
                filepath: filepath@,
                source: toml_failure_text(failure),
            }),
            _ => false,
        },
{
    match parsed {
        Ok(value) => Ok(FromPath { inner: value, path: filepath.to_owned() }),
        Err(failure) => Err(
            AmiError::ParseToml { filepath: filepath.to_owned(), source: describe(&failure) },
        ),
    }
}

/// Parses a TOML file, given what reading it gave.
pub fn parse_toml_file(
    filepath: &str,
    contents: Result<String, String>,
) -> (input: Result<FromPath<toml::Table>, AmiError>)
    ensures
        match (contents, input) {
            (Err(source), Err(e)) => e@ == (AmiErrorView::ReadFile {
                filepath: filepath@,
                source: source@,
            }),
            (Ok(text), Ok(i)) => toml_document(text@) matches Ok(table) && is_from(
                i,
                table,
                filepath@,
            ),
            (Ok(text), Err(e)) => toml_document(text@) matches Err(failure) && e@ == (
            AmiErrorView::ParseToml { filepath: filepath@, source: toml_failure_text(failure) }),
            (Err(_), Ok(_)) => false,
        },
{
    match contents {
        Err(source) => Err(AmiError::ReadFile { filepath: filepath.to_owned(), source }),
        Ok(text) => table_from(filepath, read_table(text.as_str())),
    }
}

/// Makes an input of a variant manifest, given what loading it gave.
pub fn parse_variant_manifest<M>(
    filepath: &str,
    manifest: Result<M, String>,
) -> (input: Result<FromPath<M>, AmiError>)
    ensures
        match (manifest, input) {
            (Ok(m), Ok(i)) => is_from(i, m, filepath@),
            (Err(source), Err(e)) => e@ == (AmiErrorView::LoadVariantManifest {
                filepath: filepath@,
                source: source@,
            }),
            _ => false,
        },
{
    match manifest {
        Ok(manifest) => Ok(FromPath { inner: manifest, path: filepath.to_owned() }),
        Err(source) => Err(
            AmiError::LoadVariantManifest { filepath: filepath.to_owned(), source },
        ),
    }
}

/// Makes an input of UEFI data, given what reading the file gave.
pub fn parse_uefi_data(
    filepath: &str,
    contents: Result<String, String>,
) -> (input: Result<FromPath<String>, AmiError>)
    ensures
        match (contents, input) {
            (Ok(text), Ok(i)) => is_from(i, text, filepath@),
            (Err(source), Err(e)) => e@ == (AmiErrorView::ReadFile {
                filepath: filepath@,
                source: source@,
            }),
            _ => false,
        },
{
    match contents {
        Ok(text) => Ok(FromPath { inner: text, path: filepath.to_owned() }),
        Err(source) => Err(AmiError::ReadFile { filepath: filepath.to_owned(), source }),
    }
}

} // verus!
