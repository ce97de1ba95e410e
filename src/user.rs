//! The profile kept of each user seen in a group.
use vstd::prelude::*;

verus! {

/// A user's profile as last seen.
pub struct User {
    pub id: u64,
    pub first_name: String,
    pub last_name: Option<String>,
    pub username: Option<String>,
}

} // verus!
