use std::str::FromStr;

use http_auth_basic::{AuthBasicError, Credentials};

#[test]
fn it_creates_credentials_from_value() {
    let auth_header_value = String::from("dXNlcm5hbWU6cGFzc3dvcmQ=");
    let credentials = Credentials::decode(auth_header_value).unwrap();

    assert_eq!(credentials.user_id, String::from("username"));
    assert_eq!(credentials.password, String::from("password"));
}

#[test]
fn it_creates_credentials_from_value_with_colon() {
    let auth_header_value = String::from("dXNlcm5hbWU6OnBhc3M6d29yZDo=");
    let credentials = Credentials::decode(auth_header_value).unwrap();

    assert_eq!(credentials.user_id, String::from("username"));
    assert_eq!(credentials.password, String::from(":pass:word:"));
}

#[test]
fn it_encodes_credentials() {
    let credentials = Credentials::new("username", "password");
    let credentials = credentials.encode();

    assert_eq!(String::from("dXNlcm5hbWU6cGFzc3dvcmQ="), credentials);
}

#[test]
fn it_creates_credentials_from_header_value() {
    let auth_header_value = String::from("Basic dXNlcm5hbWU6cGFzc3dvcmQ=");
    let credentials = Credentials::from_header(auth_header_value).unwrap();

    assert_eq!(credentials.user_id, String::from("username"));
    assert_eq!(credentials.password, String::from("password"));
}

#[test]
fn it_creates_credentials_from_header_value_with_colon() {
    let auth_header_value = String::from("Basic dXNlcm5hbWU6OnBhc3M6d29yZDo=");
    let credentials = Credentials::from_header(auth_header_value).unwrap();

    assert_eq!(credentials.user_id, String::from("username"));
    assert_eq!(credentials.password, String::from(":pass:word:"));
}

#[test]
fn it_creates_header_value() {
    let credentials = Credentials::new("username", "password");
    let credentials = credentials.as_http_header();

    assert_eq!(String::from("Basic dXNlcm5hbWU6cGFzc3dvcmQ="), credentials);
}

#[test]
fn it_creates_header_value_with_colon() {
    let credentials = Credentials::new("username", ":pass:word:");
    let credentials = credentials.as_http_header();

    assert_eq!(String::from("Basic dXNlcm5hbWU6OnBhc3M6d29yZDo="), credentials);
}

#[test]
fn it_creates_credentials_from_str_value() {
    let auth_header_value_str = "dXNlcm5hbWU6cGFzc3dvcmQ=";
    let credentials = Credentials::from_str(auth_header_value_str).unwrap();

    assert_eq!(credentials.user_id, String::from("username"));
    assert_eq!(credentials.password, String::from("password"));
}

#[test]
fn it_creates_credentials_from_str_header() {
    let auth_header_str = "Basic dXNlcm5hbWU6cGFzc3dvcmQ=";
    let credentials = Credentials::from_str(auth_header_str).unwrap();

    assert_eq!(credentials.user_id, String::from("username"));
    assert_eq!(credentials.password, String::from("password"));
}

#[test]
fn from_header_returns_err_when_input_has_no_whitespace() {
    let auth_header_value = String::from("BasicdXNlcm5hbWU6OnBhc3M6d29yZDo=");
    let credentials = Credentials::from_header(auth_header_value);

    assert!(credentials.is_err());
}

#[test]
fn from_header_returns_err_when_input_contains_multiple_whitespaces() {
    let auth_header_value = String::from("Basic dXNlcm5hbWU6On Bhc3M6d29yZDo=");
    let credentials = Credentials::from_header(auth_header_value);

    assert!(credentials.is_err());
}

#[test]
fn from_header_returns_err_when_input_is_not_basic_auth() {
    let auth_header_value = String::from("Bearer dXNlcm5hbWU6OnBhc3M6d29yZDo=");
    let credentials = Credentials::from_header(auth_header_value);

    assert!(credentials.is_err());
}

#[test]
fn decode_returns_err_when_input_has_no_colons() {
    let auth_header_value = String::from("dXNlcm5hbWVwYXNzd29yZA==");
    let credentials = Credentials::from_header(auth_header_value);

    assert!(credentials.is_err());
}

#[test]
fn round_trip_preserves_pair_when_user_id_has_no_colon() {
    let credentials = Credentials::new("alice", "s3cr3t:with:colons");
    let decoded = Credentials::decode(credentials.encode()).unwrap();

    assert_eq!(decoded, credentials);
}

#[test]
fn decode_splits_at_first_colon_only() {
    let credentials = Credentials::decode(String::from("dXNlcm5hbWU6cGFzczp3b3Jk")).unwrap();

    assert_eq!(credentials.user_id, String::from("username"));
    assert_eq!(credentials.password, String::from("pass:word"));
}

#[test]
fn from_header_without_space_is_invalid_authorization_header() {
    let result = Credentials::from_header(String::from("BasicdXNlcm5hbWU6cGFzc3dvcmQ="));

    assert!(matches!(result, Err(AuthBasicError::InvalidAuthorizationHeader)));
}

#[test]
fn from_header_with_space_in_payload_is_invalid_authorization_header() {
    let result = Credentials::from_header(String::from("Basic dXNlcm5hbWU6On Bhc3M6d29yZDo="));

    assert!(matches!(result, Err(AuthBasicError::InvalidAuthorizationHeader)));
}

#[test]
fn from_header_with_other_scheme_carries_the_scheme_token() {
    let result = Credentials::from_header(String::from("Bearer dXNlcm5hbWU6cGFzc3dvcmQ="));

    assert!(matches!(result, Err(AuthBasicError::InvalidScheme(scheme)) if scheme == "Bearer"));
}

#[test]
fn decode_without_colon_is_invalid_authorization_header() {
    let result = Credentials::decode(String::from("dXNlcm5hbWVwYXNzd29yZA=="));

    assert!(matches!(result, Err(AuthBasicError::InvalidAuthorizationHeader)));
}

#[test]
fn decode_of_bad_base64_is_invalid_base64_value() {
    let result = Credentials::decode(String::from("!!!not base64!!!"));

    assert!(matches!(result, Err(AuthBasicError::InvalidBase64Value(_))));
}

#[test]
fn decode_of_non_utf8_bytes_is_invalid_utf8_value() {
    // "/w==" is the base64 encoding of the single byte 0xFF, which is not UTF-8.
    let result = Credentials::decode(String::from("/w=="));

    assert!(matches!(result, Err(AuthBasicError::InvalidUtf8Value(_))));
}

#[test]
fn scheme_comparison_is_case_insensitive() {
    let upper = Credentials::from_header(String::from("BASIC dXNlcm5hbWU6cGFzc3dvcmQ=")).unwrap();
    let lower = Credentials::from_header(String::from("basic dXNlcm5hbWU6cGFzc3dvcmQ=")).unwrap();
    let mixed = Credentials::from_header(String::from("bAsIc dXNlcm5hbWU6cGFzc3dvcmQ=")).unwrap();

    assert_eq!(upper, lower);
    assert_eq!(upper, mixed);
    assert_eq!(upper.user_id, String::from("username"));
    assert_eq!(upper.password, String::from("password"));
}

#[test]
fn parse_any_reads_both_accepted_forms() {
    let bare = Credentials::parse_any("dXNlcm5hbWU6cGFzc3dvcmQ=").unwrap();
    let header = Credentials::parse_any("Basic dXNlcm5hbWU6cGFzc3dvcmQ=").unwrap();

    assert_eq!(bare, header);
    assert_eq!(bare.user_id, String::from("username"));
    assert_eq!(bare.password, String::from("password"));
}

#[test]
fn error_message_names_the_offending_scheme() {
    let result = Credentials::from_header(String::from("Bearer dXNlcm5hbWU6cGFzc3dvcmQ="));
    let message = result.unwrap_err().message();

    assert_eq!(message, String::from("The scheme provided (Bearer) is not Basic"));
}

#[test]
fn from_header_checks_the_scheme_before_payload_spaces() {
    let result = Credentials::from_header(String::from("Bearer dXNlcm5hbWU6On Bhc3M6d29yZDo="));

    assert!(matches!(result, Err(AuthBasicError::InvalidScheme(scheme)) if scheme == "Bearer"));
}

#[test]
fn header_round_trip_preserves_pair_when_user_id_has_no_colon() {
    let credentials = Credentials::new("alice", "s3cr3t:with:colons");
    let parsed = Credentials::from_header(credentials.as_http_header()).unwrap();

    assert_eq!(parsed, credentials);
}
