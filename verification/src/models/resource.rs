//! Resources that users upload.

use crate::models::user::UserId;
use vstd::prelude::*;

verus! {

/// The identity that the store gives a resource.
pub type ResourceId = i64;

#[derive(Clone, Debug)]
pub struct CreateResourceRequest {
    pub uploaded_by_user_id: Option<UserId>,
    pub url: String,
}

#[derive(Clone, Debug)]
pub struct Resource {
    pub id: ResourceId,
    pub uploaded_by_user_id: Option<UserId>,
    pub url: String,
}

} // verus!
