//! Application Only Authentication OAuth2
use vstd::prelude::*;
use crate::TwapiError;

verus! {

/// The bearer token out of the answer to a token request: `access_token`
/// is the member of that name in the body, if it is there.
pub fn get_bearer_token(access_token: Option<String>) -> (result: Result<String, TwapiError>)
    ensures
        match access_token {
            Some(token) => result == Ok::<String, TwapiError>(token),
            None => result matches Err(TwapiError::NotExists),
        },
{
    match access_token {
        Some(access_token) => Ok(access_token),
        None => Err(TwapiError::NotExists),
    }
}

} // verus!
