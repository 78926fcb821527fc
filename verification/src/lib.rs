//! A multi-tenant domain registry: tenants claim globally unique custom
//! domains, and a retryable certificate-provisioning state machine drives
//! each binding from `Pending` to `Issued` or `Failed`.
//!
//! The library owns the logic: syntactic domain validation, the atomic
//! claim/release coordinator that enforces domain uniqueness, and the
//! provisioning engine with its job queue, retry backoff and supersession
//! checks. I/O (HTTP, timers, the certificate authority) lives outside and
//! hands the library plain values.

pub mod domain;
pub mod model;
pub mod registry;
pub mod engine;
pub mod laws;
pub mod strutil;

use vstd::prelude::*;

verus! {

/// Service-level error taxonomy, as surfaced to an HTTP layer.
#[derive(Debug, Clone, PartialEq, Eq)]
pub enum Error {
    Db,
    NotFound,
    BadRequest(String),
    Conflict(String),
}

impl Error {
    /// The HTTP status code each error maps to.
    pub fn status_code(&self) -> (code: u16)
        ensures
            code == (match self {
                Error::Db => 500u16,
                Error::NotFound => 404u16,
                Error::BadRequest(_) => 400u16,
                Error::Conflict(_) => 409u16,
            }),
    {
        match self {
            Error::Db => 500,
            Error::NotFound => 404,
            Error::BadRequest(_) => 400,
            Error::Conflict(_) => 409,
        }
    }

    /// Maps a claim rejection onto the service error taxonomy: invalid
    /// input is a bad request, a domain conflict or an active binding is
    /// a conflict, an unknown tenant is not found.
    pub fn from_claim_error(e: model::ClaimError) -> (r: Error)
        ensures
            match e {
                model::ClaimError::InvalidDomain => r matches Error::BadRequest(m) && m@
                    == "Invalid domain format"@,
                model::ClaimError::TenantNotFound => r == Error::NotFound,
                model::ClaimError::DomainTaken => r matches Error::Conflict(m) && m@
                    == "Domain already in use"@,
                model::ClaimError::BindingActive => r matches Error::Conflict(m) && m@
                    == "Tenant already has an active domain binding"@,
            },
    {
        match e {
            model::ClaimError::InvalidDomain => Error::BadRequest("Invalid domain format".to_owned()),
            model::ClaimError::TenantNotFound => Error::NotFound,
            model::ClaimError::DomainTaken => Error::Conflict("Domain already in use".to_owned()),
            model::ClaimError::BindingActive => Error::Conflict(
                "Tenant already has an active domain binding".to_owned(),
            ),
        }
    }

    /// Maps a release rejection onto the service error taxonomy.
    pub fn from_release_error(e: model::ReleaseError) -> (r: Error)
        ensures
            r == Error::NotFound,
    {
        match e {
            model::ReleaseError::TenantNotFound => Error::NotFound,
        }
    }
}

} // verus!
