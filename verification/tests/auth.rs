use stomata::auth::BasicAuth;

#[test]
fn from_parts_keeps_fields() {
    let a = BasicAuth::from_parts("7", "secret");
    assert_eq!(a.user, "7");
    assert_eq!(a.pass, "secret");
}

#[test]
fn fresh_hash_verifies() {
    let a = BasicAuth::from_parts("7", "secret");
    let h = a.hash();
    assert!(a.verify(&h));
}

#[test]
fn wrong_secret_fails() {
    let h = BasicAuth::from_parts("7", "secret").hash();
    assert!(!BasicAuth::from_parts("7", "Secret").verify(&h));
    assert!(!BasicAuth::from_parts("7", "").verify(&h));
}

#[test]
fn wrong_user_fails() {
    // the user is the salt, so the same secret under another identity fails
    let h = BasicAuth::from_parts("7", "secret").hash();
    assert!(!BasicAuth::from_parts("8", "secret").verify(&h));
}

#[test]
fn hash_is_deterministic() {
    let h1 = BasicAuth::from_parts("user", "pass").hash();
    let h2 = BasicAuth::from_parts("user", "pass").hash();
    assert_eq!(h1, h2);
}

#[test]
fn malformed_hash_fails() {
    let a = BasicAuth::from_parts("7", "secret");
    assert!(!a.verify("not base64 !!!"));
    assert!(!a.verify(""));
}

#[test]
fn station_access_by_station_credential() {
    let station = BasicAuth::from_parts("7", "secret");
    let token = station.hash();
    assert!(station.allows_station(&token, None));
}

#[test]
fn station_access_by_owner_credential() {
    let token = BasicAuth::from_parts("7", "secret").hash();
    let owner = BasicAuth::from_parts("alice", "pw");
    let owner_hash = owner.hash();
    assert!(owner.allows_station(&token, Some(&owner_hash)));
    assert!(!owner.allows_station(&token, None));
    let stranger = BasicAuth::from_parts("bob", "pw");
    assert!(!stranger.allows_station(&token, Some(&owner_hash)));
}

#[test]
fn from_header_well_formed() {
    // "user:pass"
    let a = BasicAuth::from_header("Basic dXNlcjpwYXNz").unwrap();
    assert_eq!(a.user, "user");
    assert_eq!(a.pass, "pass");
}

#[test]
fn from_header_splits_at_first_colon() {
    // "user:pa:ss"
    let a = BasicAuth::from_header("Basic dXNlcjpwYTpzcw==").unwrap();
    assert_eq!(a.user, "user");
    assert_eq!(a.pass, "pa:ss");
}

#[test]
fn from_header_wrong_scheme() {
    assert!(BasicAuth::from_header("Bearer dXNlcjpwYXNz").is_none());
    assert!(BasicAuth::from_header("basic dXNlcjpwYXNz").is_none());
    assert!(BasicAuth::from_header("Basic").is_none());
    assert!(BasicAuth::from_header("").is_none());
}

#[test]
fn from_header_bad_base64() {
    assert!(BasicAuth::from_header("Basic ?!").is_none());
}

#[test]
fn from_header_no_colon() {
    // "user"
    assert!(BasicAuth::from_header("Basic dXNlcg==").is_none());
}

#[test]
fn from_header_invalid_utf8() {
    // base64 of the single byte 0xff
    assert!(BasicAuth::from_header("Basic /w==").is_none());
}
