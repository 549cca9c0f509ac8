use wlmatrix::endpoint::{EndpointGuid, EndpointId, EndpointIdError};

#[test]
fn address_alone() {
    let id = EndpointId::from_str("aeontest3@shl.local").unwrap();
    assert_eq!(id.email_addr(), "aeontest3@shl.local");
    assert!(id.endpoint_guid().is_none());
    assert_eq!(id.to_string(), "aeontest3@shl.local");
}

#[test]
fn address_and_guid() {
    let text = "aeontest3@shl.local;{77c46a8f-33a3-4d72-9a5d-905ecfd5bb2b}";
    let id = EndpointId::from_str(text).unwrap();
    assert_eq!(id.email_addr(), "aeontest3@shl.local");
    assert_eq!(
        id.endpoint_guid().unwrap().to_string(),
        "{77c46a8f-33a3-4d72-9a5d-905ecfd5bb2b}"
    );
    assert_eq!(id.to_string(), text);
}

#[test]
fn text_after_a_second_separator_is_ignored() {
    let id = EndpointId::from_str("a@b.c;{77C46A8F-33A3-4D72-9A5D-905ECFD5BB2B};extra").unwrap();
    assert_eq!(id.to_string(), "a@b.c;{77C46A8F-33A3-4D72-9A5D-905ECFD5BB2B}");
}

#[test]
fn malformed_guid_is_refused() {
    assert_eq!(
        EndpointId::from_str("a@b.c;{not-a-guid}").unwrap_err(),
        EndpointIdError::InvalidGuid
    );
    assert_eq!(
        EndpointGuid::try_parse_str("77c46a8f-33a3-4d72-9a5d-905ecfd5bb2").unwrap_err(),
        EndpointIdError::InvalidGuid
    );
    assert_eq!(
        EndpointGuid::try_parse_str("77c46a8f+33a3-4d72-9a5d-905ecfd5bb2b").unwrap_err(),
        EndpointIdError::InvalidGuid
    );
}

#[test]
fn guid_without_braces_is_accepted() {
    let g = EndpointGuid::try_parse_str("77c46a8f-33a3-4d72-9a5d-905ecfd5bb2b").unwrap();
    assert_eq!(g.to_string(), "{77c46a8f-33a3-4d72-9a5d-905ecfd5bb2b}");
}
