use tenant_registry::model::ClaimError;
use tenant_registry::Error;

#[test]
fn status_codes_follow_taxonomy() {
    assert_eq!(Error::Db.status_code(), 500);
    assert_eq!(Error::NotFound.status_code(), 404);
    assert_eq!(Error::BadRequest(String::from("x")).status_code(), 400);
    assert_eq!(Error::Conflict(String::from("x")).status_code(), 409);
}

#[test]
fn claim_errors_map_to_service_errors() {
    assert_eq!(
        Error::from_claim_error(ClaimError::InvalidDomain),
        Error::BadRequest(String::from("Invalid domain format")),
    );
    assert_eq!(Error::from_claim_error(ClaimError::TenantNotFound), Error::NotFound);
    assert_eq!(
        Error::from_claim_error(ClaimError::DomainTaken),
        Error::Conflict(String::from("Domain already in use")),
    );
    assert_eq!(
        Error::from_claim_error(ClaimError::BindingActive).status_code(),
        409,
    );
}

#[test]
fn release_error_maps_to_not_found() {
    assert_eq!(
        Error::from_release_error(tenant_registry::model::ReleaseError::TenantNotFound),
        Error::NotFound,
    );
}
