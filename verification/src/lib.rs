//! Publication of machine images to many regions and accounts.

pub mod again;
pub mod assoc;
pub mod course;
pub mod ending;
pub mod error;
pub mod failure;
pub mod files;
pub mod identity;
pub mod image;
pub mod laws;
pub mod meaning;
pub mod model;
pub mod origin;
pub mod output;
pub mod publish;
pub mod record;
pub mod regions;
pub mod requests;
pub mod script;
pub mod stage;
pub mod target;
