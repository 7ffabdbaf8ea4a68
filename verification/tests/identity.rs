use flow_api::errors::ApiError;
use flow_api::ids::{organization_id_from_header, project_id_from_header, user_id_from_header};

const ID: &str = "67e55044-10b1-426f-9247-bb680e5fe0c8";

fn text_of(id: u128) -> String {
    uuid::Uuid::from_u128(id).to_string()
}

#[test]
fn identity_headers_carry_uuids() {
    assert_eq!(text_of(user_id_from_header(Some(ID)).unwrap()), ID);
    assert_eq!(text_of(project_id_from_header(Some(ID)).unwrap()), ID);
    assert_eq!(text_of(organization_id_from_header(Some(ID)).unwrap()), ID);
}

#[test]
fn identity_header_value_is_the_id_written() {
    assert_eq!(user_id_from_header(Some(ID)).unwrap(), 0x67e5_5044_10b1_426f_9247_bb68_0e5f_e0c8);
    let nil = "00000000-0000-0000-0000-000000000000";
    assert_eq!(user_id_from_header(Some(nil)).unwrap(), 0);
    assert_ne!(user_id_from_header(Some(ID)).unwrap(), user_id_from_header(Some(nil)).unwrap());
    assert_eq!(organization_id_from_header(Some("00000000-0000-0000-0000-00000000002a")), Some(42));
}

#[test]
fn missing_or_unreadable_identity_is_refused() {
    match user_id_from_header(None) {
        Err(ApiError::Unauthorized(m)) => assert_eq!(m, "Missing or invalid X-User-Id header"),
        other => panic!("unexpected {:?}", other),
    }
    match project_id_from_header(Some("not-a-uuid")) {
        Err(ApiError::Unauthorized(m)) => assert_eq!(m, "Missing or invalid X-Project-Id header"),
        other => panic!("unexpected {:?}", other),
    }
    assert!(organization_id_from_header(Some("")).is_none());
    assert!(organization_id_from_header(None).is_none());
}
