//! Client library for the Last.fm scrobble API: credentials, request signing,
//! request preparation and the metadata submitted with each play.
//!
//! The library decides what is sent and what an answer means; sending a
//! form over HTTPS and decoding JSON are left to the caller.

pub mod auth;
pub mod client;
pub mod error;
pub mod keyorder;
pub mod metadata;
pub mod params;
pub mod responses;
pub mod signature;
pub mod submission;
pub mod text;

pub use crate::auth::{AuthParamError, Credentials, CredentialsVariant, UserCredentials};
pub use crate::client::{classify_response, ApiOperation, DispatchError, LastFm};
pub use crate::error::ScrobblerError;
pub use crate::metadata::{Scrobble, ScrobbleBatch};
pub use crate::params::ParamMap;
pub use crate::submission::{batch_request_params, scrobble_request_params, BatchError};
