//! Classification of the service's answer to a credential login.
//!
//! The login request itself is network I/O and stays outside the library;
//! what comes back in is the redirect `Location` header, if any. Success is
//! a redirect target that is present and is not the service's sentinel for
//! wrong credentials. A missing redirect and the sentinel are not told
//! apart: both end the run.

use vstd::prelude::*;
use crate::service::{spec_wrong_password_location, wrong_password_location};
use crate::text::bytes_eq;

verus! {

/// Login failed: the response carried no usable redirect, or the sentinel
/// wrong-credentials location. Fatal to the whole run.
#[derive(Clone, Copy, PartialEq, Eq, Structural, Debug)]
pub struct AuthError;

/// Whether a redirect location signals a successful login.
pub open spec fn spec_login_accepted(location: Option<Seq<u8>>) -> bool {
    location matches Some(l) && l != spec_wrong_password_location()
}

/// Decide the outcome of the login request from its redirect location.
pub fn classify_login_redirect(location: &Option<Vec<u8>>) -> (r: Result<(), AuthError>)
    ensures
        r is Ok <==> spec_login_accepted(location.deep_view()),
{
    match location {
        None => Err(AuthError),
        Some(l) => {
            proof {
                assert(l.deep_view() =~= l@);
            }
            let sentinel = wrong_password_location();
            if bytes_eq(l, &sentinel) {
                Err(AuthError)
            } else {
                Ok(())
            }
        },
    }
}

} // verus!
