use rustfm_scrobble::{classify_response, ApiOperation, DispatchError, LastFm, ParamMap};

#[test]
fn check_session_key_authentication() {
    let mut client = LastFm::new("key", "secret");
    client.set_user_credentials("user", "pass");
    client.authenticate_with_session_key("seshkey");
    assert_eq!("seshkey", client.session_key().unwrap());
}

#[test]
fn method_names() {
    assert_eq!(ApiOperation::AuthWebSession.method_name(), "auth.getSession");
    assert_eq!(ApiOperation::AuthMobileSession.method_name(), "auth.getMobileSession");
    assert_eq!(ApiOperation::NowPlaying.method_name(), "track.updateNowPlaying");
    assert_eq!(ApiOperation::Scrobble.method_name(), "track.scrobble");
}

#[test]
fn authenticated_request_needs_session() {
    let mut client = LastFm::new("key", "secret");
    client.set_user_credentials("username", "password");
    let params = ParamMap::new();
    let r = client.authenticated_request(ApiOperation::NowPlaying, &params);
    assert_eq!(r.unwrap_err(), DispatchError::NotAuthenticated);
}

#[test]
fn authenticated_request_is_signed_and_merged() {
    let mut client = LastFm::new("key", "secret");
    client.authenticate_with_session_key("sesh");
    let mut params = ParamMap::new();
    params.insert("artist".to_string(), "A".to_string());
    let form = client.authenticated_request(ApiOperation::NowPlaying, &params).unwrap();
    assert_eq!(form.get("api_key").unwrap(), "key");
    assert_eq!(form.get("sk").unwrap(), "sesh");
    assert_eq!(form.get("artist").unwrap(), "A");
    assert_eq!(form.get("method").unwrap(), "track.updateNowPlaying");
    assert_eq!(form.get("api_sig").unwrap(), "7807d46a965e2bd93b1729825f79f87f");
}

#[test]
fn caller_params_override_session_params() {
    let mut client = LastFm::new("key", "secret");
    client.authenticate_with_session_key("sesh");
    let mut params = ParamMap::new();
    params.insert("sk".to_string(), "other".to_string());
    let form = client.authenticated_request(ApiOperation::Scrobble, &params).unwrap();
    assert_eq!(form.get("sk").unwrap(), "other");
}

#[test]
fn auth_request_is_signed() {
    let mut client = LastFm::new("key", "secret");
    client.set_user_credentials("u", "p");
    let form = client.auth_request(ApiOperation::AuthMobileSession).unwrap();
    assert_eq!(form.get("method").unwrap(), "auth.getMobileSession");
    assert_eq!(form.get("username").unwrap(), "u");
    assert_eq!(form.get("api_sig").unwrap().len(), 32);
    assert!(!client.is_authenticated());
}

#[test]
fn auth_request_without_identity_fails() {
    let client = LastFm::new("key", "secret");
    assert!(client.auth_request(ApiOperation::AuthWebSession).is_err());
}

#[test]
fn new_identity_ends_session() {
    let mut client = LastFm::new("key", "secret");
    client.authenticate_with_session_key("sesh");
    assert!(client.is_authenticated());
    client.set_user_token("t");
    assert!(!client.is_authenticated());
    assert!(client.session_key().is_none());
}

#[test]
fn responses_are_classified() {
    assert_eq!(classify_response(200, Some("body".to_string())).unwrap(), "body");
    assert_eq!(classify_response(404, Some("x".to_string())).unwrap_err(), DispatchError::NonSuccessStatus(404));
    assert_eq!(classify_response(500, None).unwrap_err(), DispatchError::NonSuccessStatus(500));
    assert_eq!(classify_response(200, None).unwrap_err(), DispatchError::BodyReadError);
}

#[test]
fn dispatch_error_messages() {
    assert_eq!(DispatchError::NotAuthenticated.message(), "Not authenticated");
    assert_eq!(DispatchError::NonSuccessStatus(403).message(), "Non Success status (403)");
    assert_eq!(DispatchError::BodyReadError.message(), "Failed to read response body");
}
