use authserv::json::{IntoJErr, JsonError, errstr, json_err, json_res, true_or_err, true_or_jerr};
use authserv::{AuthError, BearerToken, CachedDb, DB, ServerState, Token, put_token};

const NOW: u64 = 50_000;

#[test]
fn json_error_envelope_shape() {
    let e = JsonError::new("failed");
    assert_eq!(e.status, "error");
    assert_eq!(e.result, "failed");
}

#[test]
fn json_err_wraps_message() {
    let r: Result<u32, JsonError> = json_err("bad scopes");
    let e = r.unwrap_err();
    assert_eq!(e.status, "error");
    assert_eq!(e.result, "bad scopes");
}

#[test]
fn true_or_jerr_picks_side() {
    assert_eq!(true_or_jerr(true, 7u32, "nope"), Ok(7));
    let e = true_or_jerr(false, 7u32, "nope").unwrap_err();
    assert_eq!(e.status, "error");
    assert_eq!(e.result, "nope");
}

#[test]
fn true_or_err_picks_side() {
    assert_eq!(true_or_err(true, 7u32, AuthError::Expired), Ok(7));
    assert_eq!(true_or_err(false, 7u32, AuthError::Expired), Err(AuthError::Expired));
}

#[test]
fn json_res_maps_error_codes() {
    let ok: Result<u32, AuthError> = Ok(3);
    assert_eq!(json_res(ok), Ok(3));
    for (e, code) in [
        (AuthError::BadAuth, "auth failure"),
        (AuthError::BadScopes, "bad scopes"),
        (AuthError::Expired, "expired"),
        (AuthError::Failed, "failed"),
    ] {
        let r: Result<u32, AuthError> = Err(e);
        let je = json_res(r).unwrap_err();
        assert_eq!(je.status, "error");
        assert_eq!(je.result, code);
    }
}

#[test]
fn errstr_renders_display() {
    assert_eq!(errstr(42u32), "42");
    assert_eq!(errstr("oops"), "oops");
}

#[test]
fn map_jerr_on_result_and_option() {
    let ok: Result<u32, String> = Ok(1);
    assert_eq!(ok.map_jerr("failed"), Ok(1));
    let bad: Result<u32, String> = Err("db".to_string());
    let e = bad.map_jerr("failed").unwrap_err();
    assert_eq!(e.status, "error");
    assert_eq!(e.result, "failed");
    assert_eq!(Some(2u32).map_jerr("failed"), Ok(2));
    let e = None::<u32>.map_jerr("failed").unwrap_err();
    assert_eq!(e.status, "error");
    assert_eq!(e.result, "failed");
}

#[test]
fn store_rejects_duplicates_and_finds_rows() {
    let mut db = DB::new();
    assert!(db.add_scope("read").is_some());
    assert!(db.add_scope("read").is_none());
    assert!(db.get_user(&"admin".to_string()).is_some());
    assert!(db.get_user(&"ghost".to_string()).is_none());
    assert!(db.delete_scope("read").is_some());
    assert!(db.delete_scope("read").is_none());
    let scopes = db.get_scopes();
    assert_eq!(scopes, vec!["authadmin".to_string()]);
}

#[test]
fn store_purges_only_expired_tokens() {
    let mut db = DB::new();
    let live = Token {
        token: "live".to_string(),
        username: "admin".to_string(),
        expiration: 100,
        scopes: vec![],
    };
    let stale = Token {
        token: "stale".to_string(),
        username: "admin".to_string(),
        expiration: 10,
        scopes: vec![],
    };
    assert!(db.add_token(live).is_some());
    assert!(db.add_token(stale).is_some());
    assert_eq!(db.purge_expired(50), 1);
    assert!(db.get_token(&"live".to_string()).is_some());
    assert!(db.get_token(&"stale".to_string()).is_none());
}

#[test]
fn require_scope_gates_on_token_scopes() {
    let mut cdb = CachedDb::new(ServerState::new(true, 300, 3600));
    let t = Token {
        token: "aaaaaaaaaaaaaaaaaaaaaaaaaaaaaaaaaaaaaaaa".to_string(),
        username: "alice".to_string(),
        expiration: NOW + 100,
        scopes: vec!["read".to_string()],
    };
    put_token(&mut cdb, &t, NOW).unwrap();
    let bearer = BearerToken { header: Some(t.token.clone()) };
    assert!(bearer.require_scope(&mut cdb, "read", NOW).is_ok());
    assert_eq!(bearer.require_scope(&mut cdb, "authadmin", NOW), Err(AuthError::BadAuth));
    assert_eq!(bearer.require_scope(&mut cdb, "read", NOW + 100), Err(AuthError::Expired));
}

#[test]
fn require_user_or_scope_accepts_either() {
    let mut cdb = CachedDb::new(ServerState::new(true, 300, 3600));
    let t = Token {
        token: "bbbbbbbbbbbbbbbbbbbbbbbbbbbbbbbbbbbbbbbb".to_string(),
        username: "alice".to_string(),
        expiration: NOW + 100,
        scopes: vec!["read".to_string()],
    };
    put_token(&mut cdb, &t, NOW).unwrap();
    let bearer = BearerToken { header: Some(t.token.clone()) };
    assert!(bearer.require_user_or_scope(&mut cdb, "alice", "other", NOW).is_ok());
    assert!(bearer.require_user_or_scope(&mut cdb, "bob", "read", NOW).is_ok());
    assert_eq!(
        bearer.require_user_or_scope(&mut cdb, "bob", "other", NOW),
        Err(AuthError::BadAuth)
    );
}

#[test]
fn missing_bearer_fails_every_guard() {
    let mut cdb = CachedDb::new(ServerState::new(true, 300, 3600));
    let bearer = BearerToken { header: None };
    assert_eq!(bearer.require_scope(&mut cdb, "read", NOW), Err(AuthError::BadAuth));
    assert_eq!(
        bearer.require_user_or_scope(&mut cdb, "alice", "read", NOW),
        Err(AuthError::BadAuth)
    );
    assert_eq!(bearer.lookup(&mut cdb, NOW).unwrap_err(), AuthError::BadAuth);
}

#[test]
fn unknown_bearer_fails_like_missing() {
    let mut cdb = CachedDb::new(ServerState::new(true, 300, 3600));
    let bearer = BearerToken::new(Some("cccccccccccccccccccccccccccccccccccccccc"));
    assert_eq!(bearer.lookup(&mut cdb, NOW).unwrap_err(), AuthError::BadAuth);
}

#[test]
fn error_codes_match_wire_contract() {
    assert_eq!(AuthError::BadAuth.code(), "auth failure");
    assert_eq!(AuthError::BadScopes.code(), "bad scopes");
    assert_eq!(AuthError::Expired.code(), "expired");
    assert_eq!(AuthError::Failed.code(), "failed");
}
