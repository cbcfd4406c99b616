use newsfeed::auth::{extract_user_id, AuthError};

#[test]
fn token_names_its_user() {
    assert_eq!(extract_user_id(Some("user_1".to_string())), Ok("1".to_string()));
}

#[test]
fn every_prefix_occurrence_is_removed() {
    assert_eq!(extract_user_id(Some("user_user_2".to_string())), Ok("2".to_string()));
    assert_eq!(extract_user_id(Some("user_".to_string())), Ok(String::new()));
}

#[test]
fn malformed_or_missing_token_is_refused() {
    assert_eq!(extract_user_id(Some("admin_1".to_string())), Err(AuthError));
    assert_eq!(extract_user_id(Some("use".to_string())), Err(AuthError));
    assert_eq!(extract_user_id(None), Err(AuthError));
}
