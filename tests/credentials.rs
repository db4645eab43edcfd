use emailer::credentials::{basic_auth, credential_lookup, hash_password, to_hex_lower, validate_credentials, AuthError};
use emailer::store::SubscriptionStore;

#[test]
fn basic_auth_reads_user_and_password() {
    let c = basic_auth(hdr(b"Basic YWRtaW46c2VjcmV0")).ok().unwrap();
    assert_eq!(c.username, "admin");
    assert_eq!(c.password, "secret");
}

#[test]
fn basic_auth_splits_at_first_colon() {
    let c = basic_auth(hdr(b"Basic YTpiOmM=")).ok().unwrap();
    assert_eq!(c.username, "a");
    assert_eq!(c.password, "b:c");
}

#[test]
fn basic_auth_errors() {
    assert_eq!(basic_auth(None).err(), Some(AuthError::MissingHeader));
    assert_eq!(basic_auth(hdr(b"Basic \x01abc")).err(), Some(AuthError::HeaderNotVisibleAscii));
    assert_eq!(basic_auth(hdr(b"Bearer YWRtaW4=")).err(), Some(AuthError::NotBasicScheme));
    assert_eq!(basic_auth(hdr(b"Basic !!!")).err(), Some(AuthError::InvalidBase64));
    assert_eq!(basic_auth(hdr(b"Basic //46eA==")).err(), Some(AuthError::CredentialsNotUtf8));
    assert_eq!(basic_auth(hdr(b"Basic YWRtaW4=")).err(), Some(AuthError::MissingPassword));
}

#[test]
fn auth_error_messages() {
    assert_eq!(AuthError::MissingHeader.message(), "Authorization header is missing");
    assert_eq!(AuthError::InvalidCredentials.message(), "Invalid username or password");
}

#[test]
fn password_digest_is_sha3_256_hex() {
    assert_eq!(
        hash_password(""),
        "a7ffc6f8bf1ed76651c14756a061d662f580ff4de43b49fa82d80a4b80f8434a"
    );
    assert_eq!(
        hash_password("pässword"),
        "d253e54c98c03efeacf04a420a6279aa027de33712ecfded16d5827c5e733873"
    );
}

#[test]
fn hex_is_lower_case_high_nibble_first() {
    assert_eq!(to_hex_lower(&[0x0f, 0xa0, 0x00, 0xff]), "0fa000ff");
}

#[test]
fn credentials_match_user_and_digest() {
    let mut store = SubscriptionStore::new();
    store.add_operator(
        3,
        "admin".to_string(),
        "f5a5207a8729b1f709cb710311751eb2fc8acad5a1fb8ac991b736e69b6529a3".to_string(),
    );
    let good = basic_auth(hdr(b"Basic YWRtaW46c2VjcmV0")).ok().unwrap();
    assert_eq!(validate_credentials(&store, &good), Ok(3));
    // other:secret
    let other = basic_auth(hdr(b"Basic b3RoZXI6c2VjcmV0")).ok().unwrap();
    assert_eq!(validate_credentials(&store, &other), Err(AuthError::InvalidCredentials));
}

fn hdr(value: &[u8]) -> Option<&[u8]> {
    Some(value)
}

#[test]
fn basic_auth_refuses_empty_user_name() {
    // ":secret"
    assert_eq!(basic_auth(hdr(b"Basic OnNlY3JldA==")).err(), Some(AuthError::MissingUsername));
    assert_eq!(AuthError::MissingUsername.message(), "Username must be provided");
}

#[test]
fn basic_auth_refuses_empty_password() {
    // "admin:"
    assert_eq!(basic_auth(hdr(b"Basic YWRtaW46")).err(), Some(AuthError::MissingPassword));
}

#[test]
fn credential_lookup_decides_on_the_answer() {
    assert_eq!(credential_lookup(Some(9)), Ok(9));
    assert_eq!(credential_lookup(None), Err(AuthError::InvalidCredentials));
}
