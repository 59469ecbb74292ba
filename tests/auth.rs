use rustfm_scrobble::{AuthParamError, Credentials, CredentialsVariant, UserCredentials};

#[test]
fn check_user_credentials() {
    let empty = UserCredentials::new("", "");
    assert!(!UserCredentials::can_authenticate(&empty));

    let not_empty = UserCredentials::new("foo", "bar");
    assert!(UserCredentials::can_authenticate(&not_empty));
}

#[test]
fn user_credentials_need_both_fields() {
    assert!(!UserCredentials::new("foo", "").can_authenticate());
    assert!(!UserCredentials::new("", "bar").can_authenticate());
}

#[test]
fn check_new_auth_credentials() {
    let rhs = Credentials::new_partial("Key", "Secret");
    assert_eq!(rhs.api_key(), "Key");
    assert_eq!(rhs.api_secret(), "Secret");
    assert!(rhs.credentials().is_none());
    assert!(rhs.session_key().is_none());
}

#[test]
fn check_set_user_creds() {
    let mut auth_creds = Credentials::new_partial("Key", "Secret");
    auth_creds.set_user_credentials("Username", "Password");

    let internal_creds = auth_creds.credentials().unwrap();

    let creds = match internal_creds {
        CredentialsVariant::UserSupplied(val) => val,
        _ => panic!("Invalid UserCredentials Value"),
    };

    assert_eq!(creds.username(), "Username");
    assert_eq!(creds.password(), "Password");
}

#[test]
fn check_set_user_token() {
    let mut auth_creds = Credentials::new_partial("Key", "Secret");
    auth_creds.set_user_token("Token");

    let token = auth_creds.credentials().unwrap();

    let token = match token {
        CredentialsVariant::Token(val) => val,
        _ => panic!("Invalid Token"),
    };

    assert_eq!(token, "Token");
}

#[test]
fn check_set_session_key_and_is_authed() {
    let mut auth_creds = Credentials::new_partial("Key", "Secret");
    auth_creds.set_session_key("SomeKey");
    let key = auth_creds.session_key().unwrap();

    assert_eq!(key, "SomeKey");
    assert!(auth_creds.is_authenticated());
}

#[test]
fn check_auth_req_params_and_get_signature() {
    let mut auth_creds = Credentials::new_partial("Key", "Secret");
    auth_creds.set_user_token("Token");
    let param_map = auth_creds.get_auth_request_params().unwrap();

    assert_eq!(param_map.get("token").unwrap(), "Token");

    auth_creds.set_user_credentials("Foo", "Bar");
    let param_map = auth_creds.get_auth_request_params().unwrap();

    assert_eq!(param_map.get("username").unwrap(), "Foo");
    assert_eq!(param_map.get("password").unwrap(), "Bar");
}

#[test]
#[should_panic]
fn check_get_bad_params() {
    let auth_creds = Credentials::new_partial("Key", "Secret");
    auth_creds.get_auth_request_params().unwrap();
}

#[test]
fn check_req_params() {
    let mut auth_creds = Credentials::new_partial("Key", "Secret");
    auth_creds.set_session_key("SomeKey");
    let req_params = auth_creds.get_request_params();

    assert_eq!(req_params.get("api_key").unwrap(), "Key");
    assert_eq!(req_params.get("sk").unwrap(), "SomeKey");
}

#[test]
fn request_params_without_session_have_empty_key() {
    let auth_creds = Credentials::new_partial("Key", "Secret");
    let req_params = auth_creds.get_request_params();
    assert_eq!(req_params.get("api_key").unwrap(), "Key");
    assert_eq!(req_params.get("sk").unwrap(), "");
    assert_eq!(req_params.sorted_keys(), vec!["api_key".to_string(), "sk".to_string()]);
}

#[test]
fn auth_params_missing_identity() {
    let creds = Credentials::new_partial("key", "secret");
    assert_eq!(creds.get_auth_request_params().unwrap_err(), AuthParamError::MissingIdentity);
}

#[test]
fn auth_params_user_credentials_exact_map() {
    let mut creds = Credentials::new_partial("key", "secret");
    creds.set_user_credentials("u", "p");
    let params = creds.get_auth_request_params().unwrap();
    assert_eq!(
        params.sorted_keys(),
        vec!["api_key".to_string(), "password".to_string(), "username".to_string()]
    );
    assert_eq!(params.get("api_key").unwrap(), "key");
    assert_eq!(params.get("username").unwrap(), "u");
    assert_eq!(params.get("password").unwrap(), "p");
}

#[test]
fn auth_params_token_exact_map() {
    let mut creds = Credentials::new_partial("key", "secret");
    creds.set_user_token("t");
    let params = creds.get_auth_request_params().unwrap();
    assert_eq!(params.sorted_keys(), vec!["api_key".to_string(), "token".to_string()]);
    assert_eq!(params.get("token").unwrap(), "t");
    assert!(params.get("username").is_none());
}

#[test]
fn auth_params_empty_client_credentials() {
    let mut creds = Credentials::new_partial("", "secret");
    creds.set_user_token("t");
    assert_eq!(
        creds.get_auth_request_params().unwrap_err(),
        AuthParamError::InvalidClientCredentials
    );
    let mut creds = Credentials::new_partial("key", "");
    creds.set_user_credentials("u", "p");
    assert_eq!(
        creds.get_auth_request_params().unwrap_err(),
        AuthParamError::InvalidClientCredentials
    );
}

#[test]
fn auth_params_incomplete_user_credentials() {
    let mut creds = Credentials::new_partial("key", "secret");
    creds.set_user_credentials("u", "");
    assert_eq!(
        creds.get_auth_request_params().unwrap_err(),
        AuthParamError::IncompleteUserCredentials
    );
    creds.set_user_credentials("", "p");
    assert_eq!(
        creds.get_auth_request_params().unwrap_err(),
        AuthParamError::IncompleteUserCredentials
    );
}

#[test]
fn auth_param_error_messages() {
    assert_eq!(AuthParamError::MissingIdentity.message(), "No user credentials available");
    assert_eq!(
        AuthParamError::InvalidClientCredentials.message(),
        "Invalid authentication parameters"
    );
    assert_eq!(
        AuthParamError::IncompleteUserCredentials.message(),
        "Invalid authentication credentials"
    );
}

#[test]
fn last_identity_set_wins_and_clears_session() {
    let mut creds = Credentials::new_partial("key", "secret");
    creds.set_session_key("old");
    creds.set_user_credentials("u", "p");
    assert!(creds.session_key().is_none());
    creds.set_session_key("old");
    creds.set_user_token("t");
    assert!(creds.session_key().is_none());
    assert!(matches!(creds.credentials(), Some(CredentialsVariant::Token(t)) if t == "t"));
    creds.set_user_credentials("u", "p");
    assert!(matches!(creds.credentials(), Some(CredentialsVariant::UserSupplied(_))));
    assert!(!creds.is_authenticated());
}

#[test]
fn authentication_state_follows_session_key() {
    let mut creds = Credentials::new_partial("key", "secret");
    assert!(!creds.is_authenticated());
    creds.set_user_token("t");
    assert!(!creds.is_authenticated());
    creds.set_session_key("sk");
    assert!(creds.is_authenticated());
    creds.set_user_credentials("u", "p");
    assert!(!creds.is_authenticated());
}

#[test]
fn empty_session_key_is_no_session() {
    let mut creds = Credentials::new_partial("key", "secret");
    creds.set_session_key("");
    assert!(!creds.is_authenticated());
    assert!(creds.session_key().is_none());
}
