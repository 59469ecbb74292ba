//! The request dispatcher: which remote method an operation calls, the signed
//! form body of each request, and how the HTTP outcome is classified. Sending
//! the form is left to the caller; this module decides what is sent.

use vstd::prelude::*;
use crate::auth::{
    auth_request_params_of, initial_credentials, request_params_of, with_session_key, with_token,
    with_user_credentials, AuthParamError, Credentials, CredentialsView,
};
use crate::params::ParamMap;
use crate::signature::signature_of;
use crate::text::{decimal, push_decimal};
use vstd::string::StringExecFns;

verus! {

/// The remote operations this client performs.
#[derive(Clone, Copy, Debug, PartialEq, Eq, Structural)]
pub enum ApiOperation {
    AuthWebSession,
    AuthMobileSession,
    NowPlaying,
    Scrobble,
}

/// The remote method name of `op`.
pub open spec fn method_name_of(op: ApiOperation) -> Seq<char> {
    match op {
        ApiOperation::AuthWebSession => "auth.getSession"@,
        ApiOperation::AuthMobileSession => "auth.getMobileSession"@,
        ApiOperation::NowPlaying => "track.updateNowPlaying"@,
        ApiOperation::Scrobble => "track.scrobble"@,
    }
}

impl ApiOperation {
    /// The remote method name.
    pub fn method_name(&self) -> (r: &'static str)
        ensures
            r@ == method_name_of(*self),
    {
        match self {
            ApiOperation::AuthWebSession => "auth.getSession",
            ApiOperation::AuthMobileSession => "auth.getMobileSession",
            ApiOperation::NowPlaying => "track.updateNowPlaying",
            ApiOperation::Scrobble => "track.scrobble",
        }
    }
}

/// Why a request failed.
#[derive(Clone, Copy, Debug, PartialEq, Eq, Structural)]
pub enum DispatchError {
    /// No session key is held; nothing was sent.
    NotAuthenticated,
    /// The service answered with this error status.
    NonSuccessStatus(u16),
    /// The body of the answer could not be read.
    BodyReadError,
}

/// An HTTP status that reports an error: 400 and above.
pub open spec fn is_error_status(status: u16) -> bool {
    status >= 400
}

impl DispatchError {
    /// A short description of the error.
    pub fn message(&self) -> (r: String)
        ensures
            r@ == match *self {
                DispatchError::NotAuthenticated => "Not authenticated"@,
                DispatchError::NonSuccessStatus(code) => "Non Success status ("@ + decimal(
                    code as nat,
                ) + ")"@,
                DispatchError::BodyReadError => "Failed to read response body"@,
            },
    {
        match self {
            DispatchError::NotAuthenticated => "Not authenticated".to_owned(),
            DispatchError::NonSuccessStatus(code) => {
                let mut s = "Non Success status (".to_owned();
                push_decimal(&mut s, *code as u64);
                s.append(")");
                s
            },
            DispatchError::BodyReadError => "Failed to read response body".to_owned(),
        }
    }
}

/// Classifies the answer to a request: an error status fails, an unreadable
/// body fails, otherwise the body is the result.
pub fn classify_response(status: u16, body: Option<String>) -> (r: Result<String, DispatchError>)
    ensures
        is_error_status(status) ==> r == Err::<String, DispatchError>(
            DispatchError::NonSuccessStatus(status),
        ),
        !is_error_status(status) && body is None ==> r == Err::<String, DispatchError>(
            DispatchError::BodyReadError,
        ),
        !is_error_status(status) && body is Some ==> (r matches Ok(b) && b@ == body->0@),
{
    if status >= 400 {
        return Err(DispatchError::NonSuccessStatus(status));
    }
    match body {
        Some(b) => Ok(b),
        None => Err(DispatchError::BodyReadError),
    }
}

/// The form body of a request: `params` with `method` and the signature `api_sig` added.
pub open spec fn signed_form_of(
    params: Map<Seq<char>, Seq<char>>,
    op: ApiOperation,
    secret: Seq<char>,
) -> Map<Seq<char>, Seq<char>> {
    params.insert("method"@, method_name_of(op)).insert(
        "api_sig"@,
        signature_of(params, method_name_of(op), secret),
    )
}

/// The parameters of an authenticated request: the session parameters,
/// overridden by the caller's where both hold a key.
pub open spec fn session_request_params(
    c: CredentialsView,
    params: Map<Seq<char>, Seq<char>>,
) -> Map<Seq<char>, Seq<char>> {
    request_params_of(c).union_prefer_right(params)
}

/// A client of the scrobble API: its credentials, and the requests they allow.
pub struct LastFm {
    auth: Credentials,
}

impl View for LastFm {
    type V = CredentialsView;

    closed spec fn view(&self) -> CredentialsView {
        self.auth@
    }
}

impl LastFm {
    /// A client with the API key and secret only.
    pub fn new(api_key: &str, api_secret: &str) -> (r: LastFm)
        ensures
            r@ == initial_credentials(api_key@, api_secret@),
    {
        LastFm { auth: Credentials::new_partial(api_key, api_secret) }
    }

    /// The credential store.
    pub fn credentials(&self) -> (r: &Credentials)
        ensures
            r@ == self@,
    {
        &self.auth
    }

    /// Sets a username and password as the identity; the session ends.
    pub fn set_user_credentials(&mut self, username: &str, password: &str)
        ensures
            final(self)@ == with_user_credentials(old(self)@, username@, password@),
    {
        self.auth.set_user_credentials(username, password);
    }

    /// Sets a token as the identity; the session ends.
    pub fn set_user_token(&mut self, token: &str)
        ensures
            final(self)@ == with_token(old(self)@, token@),
    {
        self.auth.set_user_token(token);
    }

    /// Resumes a session with a key issued earlier; nothing is sent and the
    /// key is not checked. An empty key is no key.
    pub fn authenticate_with_session_key(&mut self, session_key: &str)
        ensures
            final(self)@ == with_session_key(old(self)@, session_key@),
    {
        self.auth.set_session_key(session_key);
    }

    /// The session key, if there is a session.
    pub fn session_key(&self) -> (r: Option<&str>)
        ensures
            match r {
                Some(k) => self@.session_key == Some(k@) && k@.len() > 0,
                None => self@.session_key is None,
            },
    {
        self.auth.session_key()
    }

    /// Whether a session key is held.
    pub fn is_authenticated(&self) -> (r: bool)
        ensures
            r == self@.session_key is Some,
    {
        self.auth.is_authenticated()
    }

    /// The form body of a request for `operation` with `params`: the
    /// parameters, the method name and their signature.
    pub fn signed_request(&self, operation: ApiOperation, params: ParamMap) -> (r: ParamMap)
        ensures
            r@ == signed_form_of(params@, operation, self@.api_secret),
    {
        let mut params = params;
        let method = operation.method_name();
        let signature = self.auth.get_signature(method.to_owned(), &params);
        params.insert("method".to_owned(), method.to_owned());
        params.insert("api_sig".to_owned(), signature);
        params
    }

    /// The form body of an authentication request for `operation`, built
    /// from the identity that is set.
    pub fn auth_request(&self, operation: ApiOperation) -> (r: Result<ParamMap, AuthParamError>)
        ensures
            match auth_request_params_of(self@) {
                Ok(m) => r matches Ok(f) && f@ == signed_form_of(m, operation, self@.api_secret),
                Err(e) => r == Err::<ParamMap, AuthParamError>(e),
            },
    {
        match self.auth.get_auth_request_params() {
            Ok(params) => Ok(self.signed_request(operation, params)),
            Err(e) => Err(e),
        }
    }

    /// The form body of an authenticated request for `operation`: the session
    /// parameters merged with `params`, the caller's taking precedence, then
    /// signed. Without a session nothing may be sent.
    pub fn authenticated_request(&self, operation: ApiOperation, params: &ParamMap) -> (r: Result<
        ParamMap,
        DispatchError,
    >)
        ensures
            self@.session_key is None ==> r == Err::<ParamMap, DispatchError>(
                DispatchError::NotAuthenticated,
            ),
            self@.session_key is Some ==> (r matches Ok(f) && f@ == signed_form_of(
                session_request_params(self@, params@),
                operation,
                self@.api_secret,
            )),
    {
        if !self.auth.is_authenticated() {
            return Err(DispatchError::NotAuthenticated);
        }
        let mut req_params = self.auth.get_request_params();
        req_params.extend_from(params);
        Ok(self.signed_request(operation, req_params))
    }
}

} // verus!
