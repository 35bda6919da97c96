//! Routes of the user settings service.

use vstd::prelude::*;

use crate::api::job::{legacy_url, legacy_url_of};
use crate::text::push_lit;

verus! {

/// GET /settings/current-user
pub fn get_user_settings(api_uri: &str) -> (r: String)
    ensures
        r@ == legacy_url(api_uri@, "settings/current-user"@),
{
    let mut rest: Vec<char> = Vec::new();
    push_lit(&mut rest, "settings/current-user");
    legacy_url_of(api_uri, &rest)
}

/// PUT /settings/current-user
pub fn put_user_settings(api_uri: &str) -> (r: String)
    ensures
        r@ == legacy_url(api_uri@, "settings/current-user"@),
{
    let mut rest: Vec<char> = Vec::new();
    push_lit(&mut rest, "settings/current-user");
    legacy_url_of(api_uri, &rest)
}

} // verus!
