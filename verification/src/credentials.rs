//! The key that authenticates requests.
//!
//! The key is held by a value that is handed to whoever sends a request;
//! where that value lives, and who may reach it, is the caller's affair.

use crate::error::{InternalError, InternalErrorView};
use vstd::prelude::*;

verus! {

/// Holds the key that authenticates requests, once it has been set.
#[derive(Debug)]
pub struct Credentials {
    key: Option<String>,
}

impl Credentials {
    /// The key, if it has been set.
    pub closed spec fn secret(&self) -> Option<Seq<char>> {
        self.key.deep_view()
    }

    /// Credentials without a key.
    pub fn new() -> (credentials: Credentials)
        ensures
            credentials.secret() is None,
    {
        Credentials { key: None }
    }

    /// The key, if it has been set.
    pub fn get(&self) -> (key: Option<String>)
        ensures
            key.deep_view() == self.secret(),
    {
        self.key.clone()
    }

    /// The key that a request needs; without one the request cannot be
    /// made, which is a configuration error.
    pub fn require(&self) -> (result: Result<String, InternalError>)
        ensures
            match self.secret() {
                Some(secret) => result matches Ok(key) && key@ == secret,
                None => result matches Err(e) && e.deep_view()
                    == InternalErrorView::ConfigurationError("API key not set"@),
            },
    {
        match &self.key {
            Some(key) => Ok(key.clone()),
            None => Err(InternalError::ConfigurationError("API key not set".to_owned())),
        }
    }
}

/// Sets the key that later requests authenticate with; an earlier key is
/// replaced.
pub fn api_key(credentials: &mut Credentials, api_key: String)
    ensures
        final(credentials).secret() == Some(api_key@),
{
    credentials.key = Some(api_key);
}

} // verus!
