//! The data of the back-end with the line protocol.
use vstd::prelude::*;

verus! {

/// A model installed at the back-end.
#[derive(Debug, Clone, PartialEq, Eq)]
pub struct Model {
    pub name: String,
    pub modified_at: String,
    /// The size in bytes.
    pub size: u64,
    pub digest: String,
}

/// The answer to a request for the installed models.
#[derive(Debug, Clone, PartialEq, Eq)]
pub struct ListModelsResponse {
    pub models: Vec<Model>,
}

} // verus!
