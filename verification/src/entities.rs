use vstd::prelude::*;

use crate::json::Json;

verus! {

/// A named group of resources.
pub struct Collection {
    pub name: String,
    pub description: Option<String>,
    pub icon: Option<String>,
    pub kind: String,
    pub created_at: Option<String>,
}

/// One stored file resource.
pub struct Resource {
    pub id: String,
    pub path: String,
    pub kind: String,
    pub collection: String,
    pub title: Option<String>,
    pub content_hash: Option<String>,
    pub metadata: Option<Json>,
    pub created_at: Option<String>,
    pub updated_at: Option<String>,
}

/// One stored composite document.
pub struct Document {
    pub id: String,
    pub title: String,
    pub collection: String,
    pub metadata: Option<Json>,
    pub created_at: Option<u64>,
    pub updated_at: Option<u64>,
}

} // verus!
