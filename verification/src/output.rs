//! What becomes of the published images.

use crate::error::{AmiError, AmiErrorView};
use crate::image::RegionAccountImageMap;
use vstd::prelude::*;

verus! {

/// What is left to do after a publication.
#[derive(Debug, PartialEq)]
pub enum Aftermath {
    /// Write the images to the file at this path.
    WriteAmis { path: String, amis: RegionAccountImageMap },
    /// Nothing: this is the result.
    Done { result: Result<(), AmiError> },
}

/// Decides what to do with the outcome of a publication. The images are written to a file if that
/// was requested.
pub fn run(
    outcome: Result<RegionAccountImageMap, AmiError>,
    ami_output: Option<String>,
) -> (aftermath: Aftermath)
    ensures
        match outcome {
            Err(e) => aftermath == (Aftermath::Done { result: Err(e) }),
            Ok(amis) => match ami_output {
                Some(path) => aftermath == (Aftermath::WriteAmis { path, amis }),
                None => aftermath == (Aftermath::Done { result: Ok(()) }),
            },
        },
{
    match outcome {
        Ok(amis) => match ami_output {
            Some(path) => Aftermath::WriteAmis { path, amis },
            None => Aftermath::Done { result: Ok(()) },
        },
        Err(e) => Aftermath::Done { result: Err(e) },
    }
}

/// The result of a publication whose images were written to a file, or could not be.
pub fn after_write(path: String, written: Result<(), String>) -> (result: Result<(), AmiError>)
    ensures
        match (written, result) {
            (Ok(_), Ok(_)) => true,
            (Err(source), Err(e)) => e@ == (AmiErrorView::WriteAmis {
                path: path@,
                source: source@,
            }),
            _ => false,
        },
{
    match written {
        Ok(_) => Ok(()),
        Err(source) => Err(AmiError::WriteAmis { path, source }),
    }
}

} // verus!
