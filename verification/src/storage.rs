//! Token storage: how the outcomes of the platform credential store become the results of the
//! token commands, and how a one-time sign-in code is normalised before it is exchanged.

use vstd::prelude::*;
use crate::text::{concat_str, spec_to_uppercase, spec_trim, to_uppercase, trim, TrimSet};

verus! {

/// The credential store's service name for the token.
pub const SERVICE_NAME: &'static str = "com.crambo.desktop";

/// The credential store's account name for the token.
pub const ACCOUNT_NAME: &'static str = "auth_token";

/// Where a sign-in code is exchanged for a token.
pub const CODE_EXCHANGE_URL: &'static str = "https://crambo.app/api/desktop/exchange-code";

/// How a credential-store operation failed.
pub enum CredentialError {
    /// No token is stored.
    NoEntry,
    /// Any other failure, with the store's description of it.
    Other(String),
}

/// The error of a failed store access: the description after `prefix`.
pub open spec fn prefixed(prefix: Seq<char>, detail: Seq<char>) -> Seq<char> {
    prefix + detail
}

/// The error when the credential-store entry cannot be opened.
pub fn keyring_error(detail: &str) -> (r: String)
    ensures
        r@ == prefixed("Keyring error: "@, detail@),
{
    concat_str("Keyring error: ", detail)
}

/// The result of saving the token, from the outcome of storing it.
pub fn save_token(stored: Result<(), String>) -> (r: Result<(), String>)
    ensures
        match (stored, r) {
            (Ok(()), Ok(())) => true,
            (Err(d), Err(m)) => m@ == prefixed("Failed to save token: "@, d@),
            _ => false,
        },
{
    match stored {
        Ok(()) => Ok(()),
        Err(d) => Err(concat_str("Failed to save token: ", d.as_str())),
    }
}

/// The result of reading the token, from the outcome of the lookup: the token; nothing when
/// none is stored; otherwise an error.
pub fn get_token(lookup: Result<String, CredentialError>) -> (r: Result<Option<String>, String>)
    ensures
        match (lookup, r) {
            (Ok(t), Ok(Some(u))) => u == t,
            (Err(CredentialError::NoEntry), Ok(None)) => true,
            (Err(CredentialError::Other(d)), Err(m)) => m@ == prefixed("Failed to get token: "@, d@),
            _ => false,
        },
{
    match lookup {
        Ok(t) => Ok(Some(t)),
        Err(CredentialError::NoEntry) => Ok(None),
        Err(CredentialError::Other(d)) => Err(concat_str("Failed to get token: ", d.as_str())),
    }
}

/// The result of deleting the token, from the outcome of the deletion: deleting a token that
/// is not there succeeds.
pub fn delete_token(deleted: Result<(), CredentialError>) -> (r: Result<(), String>)
    ensures
        match (deleted, r) {
            (Ok(()), Ok(())) => true,
            (Err(CredentialError::NoEntry), Ok(())) => true,
            (Err(CredentialError::Other(d)), Err(m)) => m@ == prefixed("Failed to delete token: "@, d@),
            _ => false,
        },
{
    match deleted {
        Ok(()) => Ok(()),
        Err(CredentialError::NoEntry) => Ok(()),
        Err(CredentialError::Other(d)) => Err(concat_str("Failed to delete token: ", d.as_str())),
    }
}

/// The normalised form of a sign-in code: trimmed of white space, then upper-cased.
pub open spec fn spec_normalized_code(code: Seq<char>) -> Seq<char> {
    spec_to_uppercase(spec_trim(code, TrimSet::Whitespace))
}

/// Normalises a sign-in code before it is exchanged; an empty code is refused.
pub fn normalize_code(code: &str) -> (r: Result<String, String>)
    ensures
        spec_normalized_code(code@).len() == 0 ==> (r matches Err(m) && m@ == "Code cannot be empty"@),
        spec_normalized_code(code@).len() > 0 ==> (r matches Ok(c) && c@ == spec_normalized_code(code@)),
{
    let trimmed = trim(code);
    let upper = to_uppercase(trimmed.as_str());
    if upper.as_str().unicode_len() == 0 {
        Err(String::from_str("Code cannot be empty"))
    } else {
        Ok(upper)
    }
}

/// The error when the code exchange is answered with a failure status: the status, then the
/// answer's body.
pub fn invalid_code_error(status: &str, body: &str) -> (r: String)
    ensures
        r@ == "Invalid code ("@ + status@ + "): "@ + body@,
{
    let a = concat_str("Invalid code (", status);
    let b = concat_str(a.as_str(), "): ");
    concat_str(b.as_str(), body)
}

} // verus!
