//! The credential store: the application's API key and secret, the user's
//! identity, and the session key that authentication yields.

use vstd::prelude::*;
use crate::params::ParamMap;
use crate::signature::{sign, signature_of};

verus! {

/// A user's identity as the contracts see it.
pub enum Identity {
    UserPassword { username: Seq<char>, password: Seq<char> },
    Token { token: Seq<char> },
}

/// The state of a credential store as the contracts see it.
pub struct CredentialsView {
    pub api_key: Seq<char>,
    pub api_secret: Seq<char>,
    pub identity: Option<Identity>,
    pub session_key: Option<Seq<char>>,
}

/// Why the parameters of an authentication request cannot be formed.
#[derive(Clone, Copy, Debug, PartialEq, Eq, Structural)]
pub enum AuthParamError {
    /// No username and password, nor a token, has been set.
    MissingIdentity,
    /// The API key or the API secret is empty.
    InvalidClientCredentials,
    /// The username or the password is empty.
    IncompleteUserCredentials,
}

impl AuthParamError {
    /// A short description of the error.
    pub fn message(&self) -> (r: String)
        ensures
            r@ == match *self {
                AuthParamError::MissingIdentity => "No user credentials available"@,
                AuthParamError::InvalidClientCredentials => "Invalid authentication parameters"@,
                AuthParamError::IncompleteUserCredentials => "Invalid authentication credentials"@,
            },
    {
        match self {
            AuthParamError::MissingIdentity => "No user credentials available".to_owned(),
            AuthParamError::InvalidClientCredentials => "Invalid authentication parameters".to_owned(),
            AuthParamError::IncompleteUserCredentials => "Invalid authentication credentials".to_owned(),
        }
    }
}

/// A username and password pair.
#[derive(Clone, Debug, PartialEq)]
pub struct UserCredentials {
    username: String,
    password: String,
}

impl View for UserCredentials {
    type V = (Seq<char>, Seq<char>);

    closed spec fn view(&self) -> (Seq<char>, Seq<char>) {
        (self.username@, self.password@)
    }
}

impl UserCredentials {
    pub fn new(username: &str, password: &str) -> (r: UserCredentials)
        ensures
            r@ == (username@, password@),
    {
        UserCredentials { username: username.to_owned(), password: password.to_owned() }
    }

    pub fn username(&self) -> (r: &str)
        ensures
            r@ == self@.0,
    {
        self.username.as_str()
    }

    pub fn password(&self) -> (r: &str)
        ensures
            r@ == self@.1,
    {
        self.password.as_str()
    }

    /// Returns true when neither the username nor the password is empty.
    pub fn can_authenticate(&self) -> (r: bool)
        ensures
            r == (self@.0.len() > 0 && self@.1.len() > 0),
    {
        !self.username.as_str().is_empty() && !self.password.as_str().is_empty()
    }
}

/// The user's identity: a username and password, or a token, never both.
#[derive(Clone, Debug, PartialEq)]
pub enum CredentialsVariant {
    UserSupplied(UserCredentials),
    Token(String),
}

impl View for CredentialsVariant {
    type V = Identity;

    open spec fn view(&self) -> Identity {
        match self {
            CredentialsVariant::UserSupplied(u) => Identity::UserPassword {
                username: u@.0,
                password: u@.1,
            },
            CredentialsVariant::Token(t) => Identity::Token { token: t@ },
        }
    }
}

/// The parameters of an authentication request for the credentials `c`, or
/// why they cannot be formed.
pub open spec fn auth_request_params_of(c: CredentialsView) -> Result<
    Map<Seq<char>, Seq<char>>,
    AuthParamError,
> {
    match c.identity {
        None => Err(AuthParamError::MissingIdentity),
        Some(identity) => if c.api_key.len() == 0 || c.api_secret.len() == 0 {
            Err(AuthParamError::InvalidClientCredentials)
        } else {
            match identity {
                Identity::UserPassword { username, password } => if username.len() == 0
                    || password.len() == 0 {
                    Err(AuthParamError::IncompleteUserCredentials)
                } else {
                    Ok(
                        map![
                            "api_key"@ => c.api_key,
                            "username"@ => username,
                            "password"@ => password,
                        ],
                    )
                },
                Identity::Token { token } => Ok(map!["api_key"@ => c.api_key, "token"@ => token]),
            }
        },
    }
}

/// The session parameters sent with every authenticated request.
pub open spec fn request_params_of(c: CredentialsView) -> Map<Seq<char>, Seq<char>> {
    map![
        "api_key"@ => c.api_key,
        "sk"@ => match c.session_key {
            Some(k) => k,
            None => Seq::empty(),
        },
    ]
}

/// Freshly constructed credentials: the API key and secret only.
pub open spec fn initial_credentials(api_key: Seq<char>, api_secret: Seq<char>) -> CredentialsView {
    CredentialsView { api_key, api_secret, identity: None, session_key: None }
}

/// `c` with a username and password as the identity, and no session.
pub open spec fn with_user_credentials(
    c: CredentialsView,
    username: Seq<char>,
    password: Seq<char>,
) -> CredentialsView {
    CredentialsView {
        identity: Some(Identity::UserPassword { username, password }),
        session_key: None,
        ..c
    }
}

/// `c` with a token as the identity, and no session.
pub open spec fn with_token(c: CredentialsView, token: Seq<char>) -> CredentialsView {
    CredentialsView { identity: Some(Identity::Token { token }), session_key: None, ..c }
}

/// `c` with the session key `key`; an empty key is no key.
pub open spec fn with_session_key(c: CredentialsView, key: Seq<char>) -> CredentialsView {
    CredentialsView {
        session_key: if key.len() == 0 {
            None
        } else {
            Some(key)
        },
        ..c
    }
}

/// Setting user credentials and then a token, or a token and then user
/// credentials, leaves exactly the identity set last, and no session.
pub proof fn lemma_last_identity_wins(
    c: CredentialsView,
    username: Seq<char>,
    password: Seq<char>,
    token: Seq<char>,
)
    ensures
        with_token(with_user_credentials(c, username, password), token).identity == Some(
            Identity::Token { token },
        ),
        with_token(with_user_credentials(c, username, password), token).session_key is None,
        with_user_credentials(with_token(c, token), username, password).identity == Some(
            Identity::UserPassword { username, password },
        ),
        with_user_credentials(with_token(c, token), username, password).session_key is None,
{
}

/// There is no session after construction, nor after an identity is set,
/// whatever came before; storing a session key, and only that, starts one.
pub proof fn lemma_authentication_state(
    api_key: Seq<char>,
    api_secret: Seq<char>,
    c: CredentialsView,
    username: Seq<char>,
    password: Seq<char>,
    token: Seq<char>,
    key: Seq<char>,
)
    ensures
        initial_credentials(api_key, api_secret).session_key is None,
        with_user_credentials(c, username, password).session_key is None,
        with_token(c, token).session_key is None,
        with_session_key(c, key).session_key is Some <==> key.len() > 0,
{
}

/// Authentication parameters fail without an identity, with an empty API key
/// or secret, or with an empty username or password; otherwise they hold the
/// API key and exactly one identity shape.
pub proof fn lemma_auth_params_outcomes(c: CredentialsView)
    ensures
        c.identity is None ==> auth_request_params_of(c) == Err::<
            Map<Seq<char>, Seq<char>>,
            AuthParamError,
        >(AuthParamError::MissingIdentity),
        c.identity is Some && (c.api_key.len() == 0 || c.api_secret.len() == 0)
            ==> auth_request_params_of(c) == Err::<Map<Seq<char>, Seq<char>>, AuthParamError>(
            AuthParamError::InvalidClientCredentials,
        ),
        c.api_key.len() > 0 && c.api_secret.len() > 0 && (c.identity matches Some(
            Identity::UserPassword { username, password },
        ) && (username.len() == 0 || password.len() == 0)) ==> auth_request_params_of(c)
            == Err::<Map<Seq<char>, Seq<char>>, AuthParamError>(
            AuthParamError::IncompleteUserCredentials,
        ),
        auth_request_params_of(c) matches Ok(m) ==> m.contains_key("api_key"@) && m["api_key"@]
            == c.api_key,
        auth_request_params_of(c) matches Ok(m) ==> (c.identity matches Some(
            Identity::UserPassword { .. },
        ) ==> m.dom() == set!["api_key"@, "username"@, "password"@]),
        auth_request_params_of(c) matches Ok(m) ==> (c.identity matches Some(Identity::Token { .. })
            ==> m.dom() == set!["api_key"@, "token"@]),
        auth_request_params_of(c) matches Ok(m) ==> !(m.contains_key("token"@) && m.contains_key(
            "username"@,
        )),
{
    reveal_strlit("api_key");
    reveal_strlit("username");
    reveal_strlit("password");
    reveal_strlit("token");
    assert("token"@.len() != "api_key"@.len());
    assert("token"@.len() != "password"@.len());
    assert("username"@ != "token"@) by {
        assert("username"@[0] != "token"@[0]);
    }
    if let Ok(m) = auth_request_params_of(c) {
        match c.identity {
            Some(Identity::UserPassword { username, password }) => {
                assert(m.dom() =~= set!["api_key"@, "username"@, "password"@]);
            },
            Some(Identity::Token { token }) => {
                assert(m.dom() =~= set!["api_key"@, "token"@]);
            },
            None => {},
        }
    }
}

/// The view of a parameter map result.
pub open spec fn params_result_view(r: Result<ParamMap, AuthParamError>) -> Result<
    Map<Seq<char>, Seq<char>>,
    AuthParamError,
> {
    match r {
        Ok(m) => Ok(m@),
        Err(e) => Err(e),
    }
}

/// API identity, user identity and session key of one client.
#[derive(PartialEq, Debug)]
pub struct Credentials {
    api_key: String,
    api_secret: String,
    credentials: Option<CredentialsVariant>,
    session_key: Option<String>,
}

impl View for Credentials {
    type V = CredentialsView;

    closed spec fn view(&self) -> CredentialsView {
        CredentialsView {
            api_key: self.api_key@,
            api_secret: self.api_secret@,
            identity: match self.credentials {
                Some(c) => Some(c@),
                None => None,
            },
            session_key: match self.session_key {
                Some(k) => Some(k@),
                None => None,
            },
        }
    }
}

impl Credentials {
    #[verifier::type_invariant]
    spec fn session_key_not_empty(&self) -> bool {
        self.session_key matches Some(k) ==> k@.len() > 0
    }

    /// Credentials holding the API key and secret only.
    pub fn new_partial(api_key: &str, api_secret: &str) -> (r: Credentials)
        ensures
            r@ == initial_credentials(api_key@, api_secret@),
    {
        Credentials {
            api_key: api_key.to_owned(),
            api_secret: api_secret.to_owned(),
            credentials: None,
            session_key: None,
        }
    }

    /// The API key.
    pub fn api_key(&self) -> (r: &str)
        ensures
            r@ == self@.api_key,
    {
        self.api_key.as_str()
    }

    /// The API secret.
    pub fn api_secret(&self) -> (r: &str)
        ensures
            r@ == self@.api_secret,
    {
        self.api_secret.as_str()
    }

    /// The user's identity, if one has been set.
    pub fn credentials(&self) -> (r: Option<&CredentialsVariant>)
        ensures
            match r {
                Some(c) => self@.identity == Some(c@),
                None => self@.identity is None,
            },
    {
        match &self.credentials {
            Some(c) => Some(c),
            None => None,
        }
    }

    /// Sets a username and password as the identity; the session ends.
    pub fn set_user_credentials(&mut self, username: &str, password: &str)
        ensures
            final(self)@ == with_user_credentials(old(self)@, username@, password@),
    {
        proof {
            use_type_invariant(&*self);
        }
        self.credentials = Some(
            CredentialsVariant::UserSupplied(UserCredentials::new(username, password)),
        );
        self.clear_session_key();
    }

    /// Sets a token as the identity; the session ends.
    pub fn set_user_token(&mut self, token: &str)
        ensures
            final(self)@ == with_token(old(self)@, token@),
    {
        proof {
            use_type_invariant(&*self);
        }
        self.credentials = Some(CredentialsVariant::Token(token.to_owned()));
        self.clear_session_key();
    }

    /// Ends the session: a new identity cannot reuse it.
    fn clear_session_key(&mut self)
        ensures
            final(self)@ == (CredentialsView { session_key: None, ..old(self)@ }),
    {
        self.session_key = None;
    }

    /// Stores a session key issued earlier; an empty key is no key.
    pub fn set_session_key(&mut self, key: &str)
        ensures
            final(self)@ == with_session_key(old(self)@, key@),
    {
        if key.is_empty() {
            self.session_key = None;
        } else {
            self.session_key = Some(key.to_owned());
        }
    }

    /// The session key, if there is a session; it is never empty.
    pub fn session_key(&self) -> (r: Option<&str>)
        ensures
            match r {
                Some(k) => self@.session_key == Some(k@) && k@.len() > 0,
                None => self@.session_key is None,
            },
    {
        proof {
            use_type_invariant(self);
        }
        match &self.session_key {
            Some(k) => Some(k.as_str()),
            None => None,
        }
    }

    /// Whether a session key is held.
    pub fn is_authenticated(&self) -> (r: bool)
        ensures
            r == self@.session_key is Some,
    {
        self.session_key.is_some()
    }

    /// The parameters of an authentication request: the API key with either
    /// the username and password or the token.
    pub fn get_auth_request_params(&self) -> (r: Result<ParamMap, AuthParamError>)
        ensures
            params_result_view(r) == auth_request_params_of(self@),
    {
        let credentials = match &self.credentials {
            Some(c) => c,
            None => {
                return Err(AuthParamError::MissingIdentity);
            },
        };
        if self.api_key.as_str().is_empty() || self.api_secret.as_str().is_empty() {
            return Err(AuthParamError::InvalidClientCredentials);
        }
        let mut params = ParamMap::new();
        params.insert("api_key".to_owned(), self.api_key.clone());
        match credentials {
            CredentialsVariant::UserSupplied(user_credentials) => {
                if !user_credentials.can_authenticate() {
                    return Err(AuthParamError::IncompleteUserCredentials);
                }
                params.insert("username".to_owned(), user_credentials.username.clone());
                params.insert("password".to_owned(), user_credentials.password.clone());
            },
            CredentialsVariant::Token(token) => {
                params.insert("token".to_owned(), token.clone());
            },
        }
        Ok(params)
    }

    /// The session parameters: the API key and the session key, empty when
    /// there is no session.
    pub fn get_request_params(&self) -> (r: ParamMap)
        ensures
            r@ == request_params_of(self@),
    {
        let mut params = ParamMap::new();
        params.insert("api_key".to_owned(), self.api_key.clone());
        let sk = match &self.session_key {
            Some(k) => k.clone(),
            None => String::new(),
        };
        params.insert("sk".to_owned(), sk);
        params
    }

    /// The signature of `params` for the remote method `method`, under this
    /// client's API secret.
    pub fn get_signature(&self, method: String, params: &ParamMap) -> (r: String)
        ensures
            r@ == signature_of(params@, method@, self@.api_secret),
    {
        sign(params, method.as_str(), self.api_secret.as_str())
    }
}

} // verus!
