//! Projects: what a new project's metadata column receives.

use vstd::prelude::*;

verus! {

/// The kind of a JSON value.
#[derive(Debug, Clone, Copy, PartialEq, Eq)]
pub enum JsonKind {
    Null,
    Bool,
    Number,
    String,
    Array,
    Object,
}

/// What the `metadata` column of a new project receives.
#[derive(Debug, Clone, Copy, PartialEq, Eq)]
pub enum StoredMetadata {
    /// The metadata as the caller gave it.
    AsGiven,
    /// An empty JSON object.
    EmptyObject,
}

/// Queries on the `projects` table.
pub struct ProjectRepository;

impl ProjectRepository {
    /// What is stored as the metadata of a new project whose given metadata
    /// has kind `kind`: null becomes an empty object, an object is kept, and
    /// anything else is refused as invalid metadata (`None`).
    pub fn metadata_to_store(kind: JsonKind) -> (r: Option<StoredMetadata>)
        ensures
            r == match kind {
                JsonKind::Null => Some(StoredMetadata::EmptyObject),
                JsonKind::Object => Some(StoredMetadata::AsGiven),
                _ => None::<StoredMetadata>,
            },
    {
        match kind {
            JsonKind::Null => Some(StoredMetadata::EmptyObject),
            JsonKind::Object => Some(StoredMetadata::AsGiven),
            _ => None,
        }
    }
}

} // verus!
