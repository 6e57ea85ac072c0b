use pinboard_backup::auth::{classify_login_redirect, AuthError};
use pinboard_backup::service::{auth_endpoint, login_form_body, wrong_password_location};

#[test]
fn sentinel_location_is_rejected() {
    let location = Some(b"?error=wrong+password".to_vec());
    let r = classify_login_redirect(&location);
    assert_eq!(r, Err(AuthError));
}

#[test]
fn missing_redirect_is_rejected() {
    let r = classify_login_redirect(&None);
    assert_eq!(r, Err(AuthError));
}

#[test]
fn other_redirect_is_accepted() {
    let location = Some(b"/u:somebody/".to_vec());
    let r = classify_login_redirect(&location);
    assert_eq!(r, Ok(()));
}

#[test]
fn empty_redirect_target_is_accepted() {
    // Present but empty differs from the sentinel, so the login counts as
    // accepted: only a missing target or the sentinel rejects it.
    let location = Some(Vec::new());
    let r = classify_login_redirect(&location);
    assert_eq!(r, Ok(()));
}

#[test]
fn login_form_body_is_exact() {
    let body = login_form_body(&b"alice".to_vec(), &b"s3cret".to_vec());
    assert_eq!(body, b"username=alice&password=s3cret".to_vec());
}

#[test]
fn auth_endpoint_is_fixed() {
    assert_eq!(auth_endpoint(), b"https://pinboard.in/auth/".to_vec());
}

#[test]
fn sentinel_value_is_fixed() {
    assert_eq!(wrong_password_location(), b"?error=wrong+password".to_vec());
}
