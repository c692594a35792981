use authserv::admin::{clean_sr, create_scope_sr, create_user_sr, scopes_valid as admin_scopes_valid};
use authserv::auth::{auth, auth_sr, check_auth_sr, scopes_valid};
use authserv::{
    AuthError, AuthReq, BearerToken, CachedDb, CreateReq, Event, ServerState, Token, clean,
    get_scopes, get_token, get_user, hash_password, health, put_token, put_user,
};

const NOW: u64 = 1_000_000;

fn server() -> ServerState {
    ServerState::new(true, 300, 3600)
}

fn repo() -> CachedDb {
    CachedDb::new(server())
}

fn admin_bearer(cdb: &mut CachedDb) -> BearerToken {
    let req = AuthReq {
        name: "admin".to_string(),
        secret: "adminadmin".to_string(),
        scopes: vec!["authadmin".to_string()],
    };
    let resp = auth_sr(cdb, &req, NOW).expect("admin login");
    BearerToken { header: Some(resp.token) }
}

fn login(cdb: &mut CachedDb, name: &str, secret: &str, scopes: &[&str]) -> Result<authserv::AuthResp, AuthError> {
    let req = AuthReq {
        name: name.to_string(),
        secret: secret.to_string(),
        scopes: scopes.iter().map(|s| s.to_string()).collect(),
    };
    auth_sr(cdb, &req, NOW)
}

fn create_user(cdb: &mut CachedDb, bearer: &BearerToken, name: &str, secret: &str, life: u64, scopes: &[&str]) -> Result<&'static str, AuthError> {
    let req = CreateReq {
        name: name.to_string(),
        secret: secret.to_string(),
        life,
        scopes: scopes.iter().map(|s| s.to_string()).collect(),
    };
    create_user_sr(cdb, bearer, &req, NOW)
}

#[test]
fn health_reports_healthy() {
    assert_eq!(health(), "healthy\n");
}

#[test]
fn seeded_store_has_admin_and_authadmin() {
    let mut cdb = repo();
    let scopes = get_scopes(&mut cdb, NOW).unwrap();
    assert_eq!(scopes, vec!["authadmin".to_string()]);
    let admin = get_user(&mut cdb, "admin".to_string(), NOW).unwrap();
    assert_eq!(admin.name, "admin");
    assert!(admin.enabled);
}

#[test]
fn token_expiry_matches_instant() {
    let t = Token {
        token: "x".to_string(),
        username: "u".to_string(),
        expiration: 100,
        scopes: vec![],
    };
    assert!(!t.is_expired(99));
    assert!(t.is_expired(100));
    assert!(t.is_expired(101));
    assert_eq!(t.seconds_left(40), 60);
    assert_eq!(t.seconds_left(100), 0);
    assert_eq!(t.seconds_left(5000), 0);
}

#[test]
fn seconds_left_never_increases() {
    let t = Token {
        token: "x".to_string(),
        username: "u".to_string(),
        expiration: 500,
        scopes: vec![],
    };
    let mut last = t.seconds_left(0);
    for now in [1u64, 100, 499, 500, 501, 10_000] {
        let cur = t.seconds_left(now);
        assert!(cur <= last);
        last = cur;
    }
}

#[test]
fn create_user_then_login_grants_requested_scopes() {
    let mut cdb = repo();
    let bearer = admin_bearer(&mut cdb);
    assert_eq!(create_scope_sr(&mut cdb, &bearer, &"read".to_string(), NOW), Ok("created"));
    assert_eq!(create_user(&mut cdb, &bearer, "alice", "pw123", 3600, &["read"]), Ok("created"));

    let resp = login(&mut cdb, "alice", "pw123", &["read"]).expect("alice login");
    assert_eq!(resp.scopes, vec!["read".to_string()]);
    assert!(resp.life <= 3600);
    assert_eq!(resp.token.len(), 40);
    assert!(resp.token.chars().all(|c| c.is_ascii_hexdigit()));
}

#[test]
fn login_requesting_unowned_scope_is_bad_scopes() {
    let mut cdb = repo();
    let bearer = admin_bearer(&mut cdb);
    assert_eq!(create_scope_sr(&mut cdb, &bearer, &"read".to_string(), NOW), Ok("created"));
    assert_eq!(create_scope_sr(&mut cdb, &bearer, &"write".to_string(), NOW), Ok("created"));
    assert_eq!(create_user(&mut cdb, &bearer, "alice", "pw123", 3600, &["read"]), Ok("created"));

    assert_eq!(login(&mut cdb, "alice", "pw123", &["write"]), Err(AuthError::BadScopes));
}

#[test]
fn login_requesting_inactive_scope_is_bad_scopes() {
    let mut cdb = repo();
    let bearer = admin_bearer(&mut cdb);
    assert_eq!(create_scope_sr(&mut cdb, &bearer, &"read".to_string(), NOW), Ok("created"));
    assert_eq!(create_user(&mut cdb, &bearer, "alice", "pw123", 3600, &["read"]), Ok("created"));

    // "stale" was never registered, so it is not active
    assert_eq!(login(&mut cdb, "alice", "pw123", &["stale"]), Err(AuthError::BadScopes));
}

#[test]
fn login_with_wrong_secret_is_bad_auth() {
    let mut cdb = repo();
    let bearer = admin_bearer(&mut cdb);
    assert_eq!(create_scope_sr(&mut cdb, &bearer, &"read".to_string(), NOW), Ok("created"));
    assert_eq!(create_user(&mut cdb, &bearer, "alice", "pw123", 3600, &["read"]), Ok("created"));

    assert_eq!(login(&mut cdb, "alice", "wrong", &["read"]), Err(AuthError::BadAuth));
}

#[test]
fn login_of_disabled_user_is_bad_auth() {
    let mut cdb = repo();
    let u = authserv::User {
        name: "carol".to_string(),
        hash: hash_password("pw123"),
        expiration: NOW + 3600,
        enabled: false,
        scopes: vec![],
    };
    put_user(&mut cdb, u).unwrap();
    assert_eq!(login(&mut cdb, "carol", "pw123", &[]), Err(AuthError::BadAuth));
}

#[test]
fn login_of_expired_user_is_bad_auth() {
    let mut cdb = repo();
    let u = authserv::User {
        name: "dave".to_string(),
        hash: hash_password("pw123"),
        expiration: NOW - 1,
        enabled: true,
        scopes: vec![],
    };
    put_user(&mut cdb, u).unwrap();
    assert_eq!(login(&mut cdb, "dave", "pw123", &[]), Err(AuthError::BadAuth));
}

#[test]
fn login_of_unknown_user_is_bad_auth() {
    let mut cdb = repo();
    assert_eq!(login(&mut cdb, "nobody", "pw", &[]), Err(AuthError::BadAuth));
}

#[test]
fn login_envelope_carries_error_code() {
    let mut cdb = repo();
    let req = AuthReq {
        name: "admin".to_string(),
        secret: "wrong".to_string(),
        scopes: vec![],
    };
    let err = auth(&mut cdb, &req, NOW).unwrap_err();
    assert_eq!(err.status, "error");
    assert_eq!(err.result, "auth failure");
}

#[test]
fn check_auth_reports_token_holder() {
    let mut cdb = repo();
    let bearer = admin_bearer(&mut cdb);
    let resp = check_auth_sr(&mut cdb, &bearer, NOW).expect("check");
    assert_eq!(resp.username, "admin");
    assert_eq!(resp.scopes, vec!["authadmin".to_string()]);
    assert!(resp.life <= 3600);
}

#[test]
fn check_auth_with_expired_token_is_expired() {
    let mut cdb = repo();
    let t = Token {
        token: "feedfacefeedfacefeedfacefeedfacefeedface".to_string(),
        username: "admin".to_string(),
        expiration: NOW - 1,
        scopes: vec!["authadmin".to_string()],
    };
    put_token(&mut cdb, &t, NOW - 10).unwrap();
    let bearer = BearerToken { header: Some(t.token.clone()) };
    assert_eq!(check_auth_sr(&mut cdb, &bearer, NOW).unwrap_err(), AuthError::Expired);
}

#[test]
fn check_auth_without_header_is_bad_auth() {
    let mut cdb = repo();
    let bearer = BearerToken { header: None };
    assert_eq!(check_auth_sr(&mut cdb, &bearer, NOW).unwrap_err(), AuthError::BadAuth);
}

#[test]
fn check_auth_with_garbled_header_is_bad_auth() {
    let mut cdb = repo();
    let bearer = BearerToken::from_header(Some("Basic dXNlcjpwdw=="));
    assert!(bearer.header.is_none());
    assert_eq!(check_auth_sr(&mut cdb, &bearer, NOW).unwrap_err(), AuthError::BadAuth);
}

#[test]
fn bearer_header_prefix_is_stripped_case_sensitively() {
    let b = BearerToken::from_header(Some("bearer abc123"));
    assert_eq!(b.header, Some("abc123".to_string()));
    assert!(BearerToken::from_header(Some("Bearer abc123")).header.is_none());
    assert!(BearerToken::from_header(Some("bearer")).header.is_none());
    assert!(BearerToken::from_header(None).header.is_none());
}

#[test]
fn privileged_calls_without_authadmin_write_nothing() {
    let mut cdb = repo();
    let admin = admin_bearer(&mut cdb);
    assert_eq!(create_scope_sr(&mut cdb, &admin, &"read".to_string(), NOW), Ok("created"));
    assert_eq!(create_user(&mut cdb, &admin, "alice", "pw123", 3600, &["read"]), Ok("created"));

    // alice's token does not carry authadmin
    let resp = login(&mut cdb, "alice", "pw123", &["read"]).expect("alice login");
    let alice = BearerToken { header: Some(resp.token) };

    assert_eq!(create_scope_sr(&mut cdb, &alice, &"write".to_string(), NOW), Err(AuthError::BadAuth));
    assert_eq!(create_user(&mut cdb, &alice, "mallory", "x", 10, &[]), Err(AuthError::BadAuth));
    assert_eq!(clean_sr(&mut cdb, &alice, NOW), Err(AuthError::BadAuth));

    // and no row was written by the denied calls
    let scopes = get_scopes(&mut cdb, NOW).unwrap();
    assert!(!scopes.contains(&"write".to_string()));
    assert!(get_user(&mut cdb, "mallory".to_string(), NOW).is_err());
}

#[test]
fn duplicate_user_and_scope_fail_generically() {
    let mut cdb = repo();
    let bearer = admin_bearer(&mut cdb);
    assert_eq!(create_scope_sr(&mut cdb, &bearer, &"read".to_string(), NOW), Ok("created"));
    assert_eq!(create_scope_sr(&mut cdb, &bearer, &"read".to_string(), NOW), Err(AuthError::Failed));
    assert_eq!(create_user(&mut cdb, &bearer, "alice", "pw123", 3600, &["read"]), Ok("created"));
    assert_eq!(create_user(&mut cdb, &bearer, "alice", "other", 60, &[]), Err(AuthError::Failed));
}

#[test]
fn purge_expired_twice_returns_zero_count() {
    let mut cdb = repo();
    for (i, exp) in [(0u8, NOW - 100), (1, NOW - 1), (2, NOW + 100)] {
        let t = Token {
            token: format!("{:040}", i),
            username: "admin".to_string(),
            expiration: exp,
            scopes: vec![],
        };
        put_token(&mut cdb, &t, NOW - 200).unwrap();
    }
    assert_eq!(clean(&mut cdb, NOW), Ok(2));
    assert_eq!(clean(&mut cdb, NOW), Ok(0));
}

#[test]
fn cache_round_trip_serves_write_without_store_read() {
    let mut cdb = repo();
    let t = Token {
        token: "abcdefabcdefabcdefabcdefabcdefabcdefabcd".to_string(),
        username: "admin".to_string(),
        expiration: NOW + 600,
        scopes: vec![],
    };
    put_token(&mut cdb, &t, NOW).unwrap();
    let written = cdb.events.len();

    // before the TTL runs out the read is served from the cache alone
    let got = get_token(&mut cdb, t.token.clone(), NOW + 1).unwrap();
    assert_eq!(got.token, t.token);
    assert_eq!(got.username, t.username);
    assert_eq!(got.expiration, t.expiration);
    assert_eq!(cdb.events.len(), written);
}

#[test]
fn put_issues_cache_delete_before_store_write() {
    let mut cdb = repo();
    // fill the cache for the admin user, then write a row under that key
    get_user(&mut cdb, "admin".to_string(), NOW).unwrap();
    let before = cdb.events.len();
    let dup = get_user(&mut cdb, "admin".to_string(), NOW).unwrap();
    assert_eq!(cdb.events.len(), before, "second read must hit the cache");

    let _ = put_user(&mut cdb, dup);
    let tail = &cdb.events[before..];
    assert_eq!(tail[0], Event::CacheDel("user_admin".to_string()));
    assert_eq!(tail[1], Event::StoreWrite("user_admin".to_string()));
}

#[test]
fn token_write_deletes_cache_key_before_store_write() {
    let mut cdb = repo();
    let t = Token {
        token: "e".repeat(40),
        username: "admin".to_string(),
        expiration: NOW + 600,
        scopes: vec![],
    };
    let key = format!("token_{}", t.token);
    let before = cdb.events.len();
    put_token(&mut cdb, &t, NOW).unwrap();
    let tail = &cdb.events[before..];
    assert_eq!(tail[0], Event::CacheDel(key.clone()));
    assert_eq!(tail[1], Event::StoreWrite(key.clone()));
    assert_eq!(tail[2], Event::CacheSet(key.clone()));

    // a colliding insert still invalidates first, and never re-fills
    let before = cdb.events.len();
    assert!(put_token(&mut cdb, &t, NOW).is_err());
    let tail = &cdb.events[before..];
    assert_eq!(tail, &[Event::CacheDel(key.clone()), Event::StoreWrite(key.clone())]);
}

#[test]
fn disabled_cache_reads_store_every_time() {
    let mut cdb = CachedDb::new(ServerState::new(false, 300, 3600));
    get_user(&mut cdb, "admin".to_string(), NOW).unwrap();
    let first = cdb.events.len();
    get_user(&mut cdb, "admin".to_string(), NOW).unwrap();
    assert_eq!(cdb.events.len(), first + 1);
    assert_eq!(cdb.events.last(), Some(&Event::StoreRead("user_admin".to_string())));
}

#[test]
fn purged_token_can_outlive_in_cache_until_ttl() {
    let mut cdb = repo();
    let t = Token {
        token: "0123456789012345678901234567890123456789".to_string(),
        username: "admin".to_string(),
        expiration: NOW + 50,
        scopes: vec![],
    };
    put_token(&mut cdb, &t, NOW).unwrap();
    // the row expires, a purge removes it from the store
    assert_eq!(clean(&mut cdb, NOW + 60), Ok(1));
    // the cache still answers within its TTL, and the token reads as expired
    let got = get_token(&mut cdb, t.token.clone(), NOW + 61).unwrap();
    assert!(got.is_expired(NOW + 61));
    let bearer = BearerToken { header: Some(t.token.clone()) };
    assert_eq!(check_auth_sr(&mut cdb, &bearer, NOW + 61).unwrap_err(), AuthError::Expired);
}

#[test]
fn password_hash_round_trips_through_login() {
    let h = hash_password("topsecret");
    assert!(h.starts_with("$argon2"));
    assert_ne!(h, "topsecret");
    // a second hash uses a fresh salt
    assert_ne!(hash_password("topsecret"), h);
}

#[test]
fn scope_validation_checks_owned_and_active() {
    let read = "read".to_string();
    let write = "write".to_string();
    let req = vec![read.clone()];
    let owned = vec![read.clone(), write.clone()];
    let active = vec![read.clone()];
    assert!(scopes_valid(&req, &owned, &active));
    assert!(!scopes_valid(&vec![write.clone()], &owned, &active), "inactive scope");
    assert!(!scopes_valid(&vec![write.clone()], &vec![read.clone()], &vec![write.clone()]), "unowned scope");
    assert!(scopes_valid(&vec![], &vec![], &vec![]));
}

#[test]
fn admin_scope_validation_checks_active_only() {
    let read = "read".to_string();
    let write = "write".to_string();
    assert!(admin_scopes_valid(&vec![read.clone()], &vec![read.clone(), write.clone()]));
    assert!(!admin_scopes_valid(&vec![write.clone()], &vec![read.clone()]));
    assert!(admin_scopes_valid(&vec![], &vec![]));
}

#[test]
fn clean_purges_expired_rows_and_reports_count() {
    let mut cdb = repo();
    let bearer = admin_bearer(&mut cdb);
    let stale = Token {
        token: "9999999999999999999999999999999999999999".to_string(),
        username: "admin".to_string(),
        expiration: NOW - 5,
        scopes: vec![],
    };
    put_token(&mut cdb, &stale, NOW - 10).unwrap();
    assert_eq!(clean_sr(&mut cdb, &bearer, NOW), Ok("cleaned"));
    // the stale row is gone from the store; the admin session survives
    assert_eq!(clean(&mut cdb, NOW), Ok(0));
    assert!(check_auth_sr(&mut cdb, &bearer, NOW).is_ok());
}
