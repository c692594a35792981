use vstd::prelude::*;

use crate::crypto::{argon2_verifies, gen_token, password_valid};
use crate::db::{DbV, StoreError, contains_string, find_token, find_user};
use crate::guard::BearerToken;
use crate::json::{AuthError, JsonRes, json_res};
use crate::repo::{CachedDb, no_time_overflow};
use crate::scopes::get_scopes;
use crate::token::{Token, TokenV, lookup_token_spec, put_token, spec_seconds_left,
    token_read_effect};
use crate::user::get_user;

verus! {

/// A login request: the credential pair and the scope subset asked for.
pub struct AuthReq {
    pub name: String,
    pub secret: String,
    pub scopes: Vec<String>,
}

/// A successful login: the issued bearer token, the scopes it carries, and
/// its remaining lifetime in seconds.
#[derive(Debug, PartialEq, Eq)]
pub struct AuthResp {
    pub token: String,
    pub scopes: Vec<String>,
    pub life: u64,
}

/// What a validated bearer token stands for: its user, remaining lifetime,
/// and granted scopes.
#[derive(Debug)]
pub struct TokenResp {
    pub username: String,
    pub life: u64,
    pub scopes: Vec<String>,
}

/// Every requested scope is both still active and owned by the user.
pub open spec fn spec_scopes_valid(
    req: Seq<Seq<char>>,
    have: Seq<Seq<char>>,
    active: Seq<Seq<char>>,
) -> bool {
    forall|i: int| 0 <= i < req.len() ==> active.contains(req[i]) && have.contains(req[i])
}

/// Three-way scope validation: a requested scope fails if it is no longer
/// active or does not belong to the user — ownership and activity can
/// diverge independently.
pub fn scopes_valid(
    req_scopes: &Vec<String>,
    have_scopes: &Vec<String>,
    active_scopes: &Vec<String>,
) -> (r: bool)
    ensures
        r == spec_scopes_valid(
            req_scopes.deep_view(),
            have_scopes.deep_view(),
            active_scopes.deep_view(),
        ),
{
    let ghost rv = req_scopes.deep_view();
    let mut i: usize = 0;
    while i < req_scopes.len()
        invariant
            0 <= i <= req_scopes@.len(),
            rv == req_scopes.deep_view(),
            rv.len() == req_scopes@.len(),
            forall|k: int|
                0 <= k < i ==> active_scopes.deep_view().contains(rv[k])
                    && have_scopes.deep_view().contains(rv[k]),
        decreases req_scopes@.len() - i,
    {
        proof {
            assert(rv[i as int] == req_scopes@[i as int]@);
        }
        if !contains_string(active_scopes, &req_scopes[i]) {
            return false;
        }
        if !contains_string(have_scopes, &req_scopes[i]) {
            return false;
        }
        i = i + 1;
    }
    true
}

/// Collapse a store error into the login error taxonomy: an unknown name is
/// indistinguishable from a bad password, anything else is the generic
/// failure.
pub fn catch_notfound(e: StoreError) -> (r: AuthError)
    ensures
        r == if e == StoreError::NotFound {
            AuthError::BadAuth
        } else {
            AuthError::Failed
        },
{
    match e {
        StoreError::NotFound => AuthError::BadAuth,
        _ => AuthError::Failed,
    }
}

/// The checks a login must pass before a token is issued: the user exists,
/// is enabled and unexpired, and the secret verifies against its digest.
pub open spec fn spec_auth_ok(db: DbV, name: Seq<char>, secret: Seq<char>, now: u64) -> bool {
    match find_user(db.users, name) {
        None => false,
        Some(u) => u.enabled && now < u.expiration && argon2_verifies(u.hash, secret),
    }
}

/// Login: exchange a name/secret pair for a fresh bearer token carrying the
/// requested scope subset.
///
/// On success the granted scope set equals the requested one, and is a
/// subset of both the user's owned scopes and the active scope registry.
/// A failed credential check gives `BadAuth` (never saying which part
/// failed), an inadmissible scope request gives `BadScopes`, and a random
/// identifier collision with an existing token row surfaces as `Failed`
/// with nothing written.
pub fn auth_sr(cdb: &mut CachedDb, req: &AuthReq, now: u64) -> (r: Result<AuthResp, AuthError>)
    requires
        old(cdb)@.wf(),
        no_time_overflow(old(cdb).serv, now),
    ensures
        final(cdb)@.wf(),
        final(cdb)@.serv == old(cdb)@.serv,
        final(cdb)@.db.users == old(cdb)@.db.users,
        final(cdb)@.db.scopes == old(cdb)@.db.scopes,
        ({
            let user_opt = find_user(old(cdb)@.db.users, req.name@);
            let active = old(cdb)@.db.scopes;
            let auth_ok = spec_auth_ok(old(cdb)@.db, req.name@, req.secret@, now);
            let scopes_ok = spec_scopes_valid(
                req.scopes.deep_view(),
                user_opt->Some_0.scopes,
                active,
            );
            &&& (!auth_ok ==> r == Err::<AuthResp, AuthError>(AuthError::BadAuth)
                && final(cdb)@.db.tokens == old(cdb)@.db.tokens)
            &&& (auth_ok && !scopes_ok ==> r == Err::<AuthResp, AuthError>(AuthError::BadScopes)
                && final(cdb)@.db.tokens == old(cdb)@.db.tokens)
            &&& (auth_ok && scopes_ok ==> r is Ok || r == Err::<AuthResp, AuthError>(
                AuthError::Failed,
            ))
            &&& (r == Err::<AuthResp, AuthError>(AuthError::Failed) ==> auth_ok && scopes_ok
                && final(cdb)@.db.tokens == old(cdb)@.db.tokens)
            &&& (r is Ok ==> {
                let resp = r->Ok_0;
                let issued = TokenV {
                    token: resp.token@,
                    username: user_opt->Some_0.name,
                    expiration: (now + old(cdb).serv.token_lifetime) as u64,
                    scopes: req.scopes.deep_view(),
                };
                &&& auth_ok && scopes_ok
                &&& resp.scopes.deep_view() == req.scopes.deep_view()
                &&& resp.life == old(cdb).serv.token_lifetime
                &&& resp.token@.len() == 40
                &&& final(cdb)@.db.tokens == old(cdb)@.db.tokens.push(issued)
                &&& find_token(final(cdb)@.db.tokens, resp.token@) == Some(issued)
                // granted is a subset of both owned and active scopes
                &&& forall|i: int|
                    0 <= i < resp.scopes.deep_view().len()
                        ==> user_opt->Some_0.scopes.contains(#[trigger] resp.scopes.deep_view()[i])
                            && active.contains(resp.scopes.deep_view()[i])
            })
        }),
{
    let u = match get_user(cdb, req.name.clone(), now) {
        Ok(u) => u,
        Err(e) => {
            return Err(catch_notfound(e));
        },
    };
    let active_scopes = match get_scopes(cdb, now) {
        Ok(s) => s,
        Err(_) => {
            return Err(AuthError::Failed);
        },
    };

    // fail alike if disabled, expired, or the provided credentials are bad
    if !u.is_enabled(now) || !password_valid(u.hash.as_str(), req.secret.as_str()) {
        return Err(AuthError::BadAuth);
    }
    if !scopes_valid(&req.scopes, &u.scopes, &active_scopes) {
        return Err(AuthError::BadScopes);
    }

    let tokstr = gen_token();
    let life = cdb.serv.token_lifetime;
    let exp = now + life;
    let granted_scopes = req.scopes.clone();
    proof {
        assert(granted_scopes.deep_view() =~= req.scopes.deep_view());
    }

    // add the session to the store (and, best-effort, the cache)
    let tok = Token {
        token: tokstr.clone(),
        username: u.name.clone(),
        expiration: exp,
        scopes: granted_scopes,
    };
    match put_token(cdb, &tok, now) {
        Ok(_) => {},
        Err(_) => {
            return Err(AuthError::Failed);
        },
    }

    // and hand it back to the user
    proof {
        crate::db::lemma_find_token_push(old(cdb)@.db.tokens, tok@, tok@.token);
        let rv = req.scopes.deep_view();
        assert forall|i: int| 0 <= i < rv.len() implies find_user(
            old(cdb)@.db.users,
            req.name@,
        )->Some_0.scopes.contains(#[trigger] rv[i]) && old(cdb)@.db.scopes.contains(rv[i]) by {
            assert(spec_scopes_valid(rv, u@.scopes, active_scopes.deep_view()));
        }
    }
    let life_left = tok.seconds_left(now);
    let resp = AuthResp { token: tokstr, scopes: tok.scopes, life: life_left };
    Ok(resp)
}

/// Login, wrapped in the wire envelope: the error half carries the code of
/// the typed error.
pub fn auth(cdb: &mut CachedDb, req: &AuthReq, now: u64) -> (r: JsonRes<AuthResp>)
    requires
        old(cdb)@.wf(),
        no_time_overflow(old(cdb).serv, now),
    ensures
        final(cdb)@.wf(),
        final(cdb)@.serv == old(cdb)@.serv,
        final(cdb)@.db.users == old(cdb)@.db.users,
        final(cdb)@.db.scopes == old(cdb)@.db.scopes,
        ({
            let auth_ok = spec_auth_ok(old(cdb)@.db, req.name@, req.secret@, now);
            let scopes_ok = spec_scopes_valid(
                req.scopes.deep_view(),
                find_user(old(cdb)@.db.users, req.name@)->Some_0.scopes,
                old(cdb)@.db.scopes,
            );
            &&& (!auth_ok ==> r is Err && r->Err_0.result@ == "auth failure"@)
            &&& (auth_ok && !scopes_ok ==> r is Err && r->Err_0.result@ == "bad scopes"@)
            // success is owed whenever the checks pass, short of a random
            // identifier collision, which surfaces as the generic failure
            &&& (auth_ok && scopes_ok ==> r is Ok || (r is Err && r->Err_0.result@ == "failed"@))
            &&& (r is Err ==> final(cdb)@.db.tokens == old(cdb)@.db.tokens)
            &&& (r is Ok ==> auth_ok && scopes_ok && r->Ok_0.scopes.deep_view()
                == req.scopes.deep_view() && r->Ok_0.life == old(cdb).serv.token_lifetime
                && r->Ok_0.token@.len() == 40)
        }),
{
    json_res(auth_sr(cdb, req, now))
}

/// Validate the caller's bearer credential and report whom it stands for.
pub fn check_auth_sr(cdb: &mut CachedDb, bearer: &BearerToken, now: u64) -> (r: Result<
    TokenResp,
    AuthError,
>)
    requires
        old(cdb)@.wf(),
        no_time_overflow(old(cdb).serv, now),
    ensures
        final(cdb)@.wf(),
        final(cdb)@.db == old(cdb)@.db,
        final(cdb)@.serv == old(cdb)@.serv,
        bearer@ is None ==> r == Err::<TokenResp, AuthError>(AuthError::BadAuth) && *final(cdb)
            == *old(cdb),
        bearer@ is Some ==> token_read_effect(old(cdb)@, final(cdb)@, bearer@->Some_0, now),
        bearer@ is Some ==> {
            let l = lookup_token_spec(old(cdb)@, bearer@->Some_0, now);
            &&& l is None ==> r == Err::<TokenResp, AuthError>(AuthError::BadAuth)
            &&& (l is Some && now >= l->Some_0.expiration) ==> r == Err::<TokenResp, AuthError>(
                AuthError::Expired,
            )
            &&& (l is Some && now < l->Some_0.expiration) ==> r is Ok && {
                let resp = r->Ok_0;
                &&& resp.username@ == l->Some_0.username
                &&& resp.scopes.deep_view() == l->Some_0.scopes
                &&& resp.life == spec_seconds_left(l->Some_0.expiration, now)
            }
        },
{
    let tok = match bearer.lookup(cdb, now) {
        Ok(t) => t,
        Err(e) => {
            return Err(e);
        },
    };
    let scopes = tok.scopes.clone();
    proof {
        assert(scopes.deep_view() =~= tok.scopes.deep_view());
    }
    let life = tok.seconds_left(now);
    let resp = TokenResp { username: tok.username, life, scopes };
    Ok(resp)
}

/// Check-auth, wrapped in the wire envelope.
pub fn check_auth(cdb: &mut CachedDb, bearer: &BearerToken, now: u64) -> (r: JsonRes<TokenResp>)
    requires
        old(cdb)@.wf(),
        no_time_overflow(old(cdb).serv, now),
    ensures
        final(cdb)@.wf(),
        final(cdb)@.db == old(cdb)@.db,
        final(cdb)@.serv == old(cdb)@.serv,
        bearer@ is None ==> r is Err && r->Err_0.result@ == "auth failure"@,
        bearer@ is Some ==> {
            let l = lookup_token_spec(old(cdb)@, bearer@->Some_0, now);
            &&& l is None ==> r is Err && r->Err_0.result@ == "auth failure"@
            &&& (l is Some && now >= l->Some_0.expiration) ==> r is Err && r->Err_0.result@
                == "expired"@
            &&& (l is Some && now < l->Some_0.expiration) ==> r is Ok && {
                let resp = r->Ok_0;
                &&& resp.username@ == l->Some_0.username
                &&& resp.scopes.deep_view() == l->Some_0.scopes
                &&& resp.life == spec_seconds_left(l->Some_0.expiration, now)
            }
        },
{
    json_res(check_auth_sr(cdb, bearer, now))
}

} // verus!
