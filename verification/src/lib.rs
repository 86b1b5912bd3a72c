pub mod api_keys;
pub mod domains;
pub mod emails;
pub mod error;
pub mod json;
pub mod request;

pub use error::Error;

use vstd::prelude::*;

verus! {

use crate::api_keys::ApiKeys;
use crate::domains::Domains;
use crate::emails::Emails;
use crate::request::{auth_header, check_header_value, spec_auth_header, valid_header_value};

/// The client: one resource facade per group, all three carrying the same
/// authorization. A transport issuing the requests these facades describe
/// holds exactly two fixed default headers: the `Authorization` value kept
/// here and `Content-Type: application/json`.
pub struct Resend {
    pub api_keys: ApiKeys,
    pub domains: Domains,
    pub emails: Emails,
}

/// All three facades carry the bearer header for `key`.
pub open spec fn resend_wf(c: Resend, key: Seq<char>) -> bool {
    c.api_keys.auth@ == spec_auth_header(key) && c.domains.auth@ == spec_auth_header(key)
        && c.emails.auth@ == spec_auth_header(key)
}

impl Resend {
    /// Builds a client around a credential. Fails exactly when the
    /// credential holds a character that cannot stand in an HTTP header
    /// value; otherwise every facade carries `Bearer` plus the credential.
    pub fn new(api_key: &str) -> (r: Result<Resend, Error>)
        ensures
            r is Ok <==> valid_header_value(api_key@),
            (r matches Ok(c) ==> resend_wf(c, api_key@)),
            (r matches Err(e) ==> e is InvalidApiKey),
    {
        if !check_header_value(api_key) {
            return Err(Error::InvalidApiKey);
        }
        let auth = auth_header(api_key);
        Ok(
            Resend {
                api_keys: ApiKeys { auth: auth.clone() },
                domains: Domains { auth: auth.clone() },
                emails: Emails { auth },
            },
        )
    }
}

/// One initialization step of the process-wide singleton. Handed the
/// current global state, it refuses a second initialization with the
/// already-set error — leaving the first client, and so its headers,
/// untouched — and otherwise builds the client exactly as `Resend::new`
/// does.
pub fn configure(state: Option<&Resend>, api_key: &str) -> (r: Result<Resend, Error>)
    ensures
        state is Some ==> (r matches Err(e) && e is OnceCellWasAlreadySet),
        state is None ==> (r is Ok <==> valid_header_value(api_key@)),
        state is None ==> (r matches Ok(c) ==> resend_wf(c, api_key@)),
        state is None ==> (r matches Err(e) ==> e is InvalidApiKey),
{
    match state {
        Some(_) => Err(Error::OnceCellWasAlreadySet),
        None => Resend::new(api_key),
    }
}

/// The read step of every singleton-mode free function: before
/// initialization it fails with the not-configured error and nothing else;
/// after it, it hands the configured client back unchanged.
pub fn require_configured<'a>(state: Option<&'a Resend>) -> (r: Result<&'a Resend, Error>)
    ensures
        r is Err <==> state is None,
        (r matches Err(e) ==> e is OnceCellWasNotSet),
        (r matches Ok(c) ==> (state matches Some(s) && s == c)),
{
    match state {
        Some(c) => Ok(c),
        None => Err(Error::OnceCellWasNotSet),
    }
}

} // verus!
