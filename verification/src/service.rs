//! The fixed shapes of the remote bookmarking service: its origin, the
//! endpoints the pipeline talks to, the sentinel that signals a rejected
//! login, and the derivations of every URL and path the pipeline builds.

use vstd::prelude::*;
use vstd::string::StringSliceAdditionalSpecFns;
use crate::text::{concat_bytes, str_to_bytes};

verus! {

/// The service's origin, in front of every path the pipeline fetches.
pub open spec fn spec_service_origin() -> Seq<u8> {
    "https://pinboard.in".spec_bytes()
}

pub fn service_origin() -> (v: Vec<u8>)
    ensures
        v@ == spec_service_origin(),
{
    str_to_bytes("https://pinboard.in")
}

/// The endpoint that takes the credential form.
pub open spec fn spec_auth_endpoint() -> Seq<u8> {
    "https://pinboard.in/auth/".spec_bytes()
}

pub fn auth_endpoint() -> (v: Vec<u8>)
    ensures
        v@ == spec_auth_endpoint(),
{
    str_to_bytes("https://pinboard.in/auth/")
}

/// The redirect target the service answers with when the credentials are
/// wrong.
pub open spec fn spec_wrong_password_location() -> Seq<u8> {
    "?error=wrong+password".spec_bytes()
}

pub fn wrong_password_location() -> (v: Vec<u8>)
    ensures
        v@ == spec_wrong_password_location(),
{
    str_to_bytes("?error=wrong+password")
}

/// The prefix that a cache identifier carries in front of its bookmark
/// identifier.
pub open spec fn spec_cached_prefix() -> Seq<u8> {
    "/cached/".spec_bytes()
}

pub fn cached_prefix() -> (v: Vec<u8>)
    ensures
        v@ == spec_cached_prefix(),
{
    str_to_bytes("/cached/")
}

/// The path of the first index page of a user's bookmark listing.
pub open spec fn spec_first_index_path(username: Seq<u8>) -> Seq<u8> {
    "/u:".spec_bytes() + username + "/?per_page=160".spec_bytes()
}

pub fn first_index_path(username: &Vec<u8>) -> (v: Vec<u8>)
    ensures
        v@ == spec_first_index_path(username@),
{
    let head = str_to_bytes("/u:");
    let tail = str_to_bytes("/?per_page=160");
    let with_user = concat_bytes(&head, username);
    concat_bytes(&with_user, &tail)
}

/// The URL of an index page, from the path the previous page handed out.
pub open spec fn spec_index_url(path: Seq<u8>) -> Seq<u8> {
    spec_service_origin() + path
}

pub fn index_url(path: &Vec<u8>) -> (v: Vec<u8>)
    ensures
        v@ == spec_index_url(path@),
{
    let origin = service_origin();
    concat_bytes(&origin, path)
}

/// The URL of one cached snapshot page, from its cache identifier.
pub open spec fn spec_target_url(cache_id: Seq<u8>) -> Seq<u8> {
    spec_service_origin() + cache_id
}

pub fn target_url(cache_id: &Vec<u8>) -> (v: Vec<u8>)
    ensures
        v@ == spec_target_url(cache_id@),
{
    let origin = service_origin();
    concat_bytes(&origin, cache_id)
}

/// The body of the credential form that the second, parallel authentication
/// posts on behalf of the external download capability.
pub open spec fn spec_login_form_body(username: Seq<u8>, password: Seq<u8>) -> Seq<u8> {
    "username=".spec_bytes() + username + "&password=".spec_bytes() + password
}

pub fn login_form_body(username: &Vec<u8>, password: &Vec<u8>) -> (v: Vec<u8>)
    ensures
        v@ == spec_login_form_body(username@, password@),
{
    let head = str_to_bytes("username=");
    let mid = str_to_bytes("&password=");
    let a = concat_bytes(&head, username);
    let b = concat_bytes(&a, &mid);
    concat_bytes(&b, password)
}

} // verus!
