//! A user as the server reports one inside other resources.

use vstd::prelude::*;

verus! {

/// The account that opened an issue, is assigned to it, and so on.
pub struct User {
    pub login: String,
    pub id: u64,
    pub avatar_url: String,
    pub url: String,
    pub html_url: String,
    pub site_admin: bool,
}

} // verus!
