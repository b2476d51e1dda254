//! A verified core for a media-search picker.
//!
//! The library interprets provider responses into media records, keeps a
//! history of identifiers that were already shown, filters candidates
//! against that history, and selects one (or several) of the survivors at
//! random. All surrounding I/O — HTTP requests, JSON decoding, reading and
//! writing the history file — is left to the embedding program, which hands
//! this crate plain values and takes plain values back.

use vstd::prelude::*;

pub mod config;
pub mod errors;
pub mod gfycat;
pub mod giphy;
pub mod history;
pub mod output;
mod random;
pub mod selector;
pub mod strings;

verus! {

/// A single media result: an opaque provider-assigned identifier and a
/// direct link to the media asset.
#[derive(Debug)]
pub struct MediaRecord {
    pub id: String,
    pub url: String,
}

} // verus!
