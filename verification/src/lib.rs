//! A token-based authentication and scope-authorization service: callers
//! exchange a name/secret pair for a short-lived bearer token scoped to a
//! subset of capabilities, and holders of a token can have it validated and
//! authorized against required scopes. Every entity is read and written
//! through a cache-aside repository over a TTL cache and a uniqueness-keyed
//! store, and every access is recorded in an operation log.

pub mod admin;
pub mod auth;
pub mod cache;
pub mod crypto;
pub mod db;
pub mod guard;
pub mod json;
pub mod repo;
pub mod root;
pub mod scopes;
pub mod state;
pub mod token;
pub mod user;

pub use admin::{
    CreateReq, clean_sr, create_scope, create_scope_sr, create_user, create_user_sr,
    spec_scopes_active,
};
pub use auth::{
    AuthReq, AuthResp, TokenResp, auth, auth_sr, catch_notfound, check_auth, check_auth_sr,
    scopes_valid, spec_auth_ok, spec_scopes_valid,
};
pub use cache::{Cache, CacheEntry, CacheVal, CacheValV, EntryV, find_entry, spec_lookup};
pub use crypto::{
    argon2_digest_of, argon2_verifies, hash_password, hex_digit, hex_of, lemma_hex_of_len,
};
pub use db::{DB, DbV, StoreError, contains_string, find_token, find_user};
pub use guard::{BearerToken, guard_deny_error, guard_scope_ok, spec_bearer_of};
pub use json::{
    AuthError, IntoJErr, JsonError, JsonRes, errstr, json_err, json_res, true_or_err, true_or_jerr,
};
pub use repo::{
    CachedDb, CachedDbV, Ev, Event, no_time_overflow, scopes_key_v, token_key_v, user_key_v,
};
pub use root::health;
pub use scopes::{Scope, get_scopes, put_scope};
pub use state::ServerState;
pub use token::{
    Token, TokenV, clean, get_token, lemma_cache_round_trip, lemma_seconds_left_monotonic,
    lookup_token_spec, put_token, spec_seconds_left, token_read_effect,
};
pub use user::{User, UserV, get_user, lemma_user_round_trip, put_user, user_read_effect};
