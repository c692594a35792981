use vstd::prelude::*;

use crate::cache;
use crate::crypto::{argon2_digest_of, argon2_verifies, hash_password};
use crate::db::{DbV, contains_string, find_user, purge_spec};
use crate::guard::{BearerToken, guard_deny_error, guard_scope_ok};
use crate::json::{AuthError, JsonRes, json_res};
use crate::repo::{CachedDb, no_time_overflow};
use crate::scopes::{get_scopes, put_scope};
use crate::token;
use crate::user::{User, put_user};

verus! {

/// An administrator's request to provision a new user.
pub struct CreateReq {
    pub name: String,
    pub secret: String,
    pub life: u64,
    pub scopes: Vec<String>,
}

/// Every requested scope is present in the active registry.
pub open spec fn spec_scopes_active(req: Seq<Seq<char>>, active: Seq<Seq<char>>) -> bool {
    forall|i: int| 0 <= i < req.len() ==> active.contains(req[i])
}

/// Two-way scope validation for provisioning: a requested scope fails only
/// if it is not an active scope, since no owner exists yet.
pub fn scopes_valid(req_scopes: &Vec<String>, active_scopes: &Vec<String>) -> (r: bool)
    ensures
        r == spec_scopes_active(req_scopes.deep_view(), active_scopes.deep_view()),
{
    let ghost rv = req_scopes.deep_view();
    let mut i: usize = 0;
    while i < req_scopes.len()
        invariant
            0 <= i <= req_scopes@.len(),
            rv == req_scopes.deep_view(),
            rv.len() == req_scopes@.len(),
            forall|k: int| 0 <= k < i ==> active_scopes.deep_view().contains(rv[k]),
        decreases req_scopes@.len() - i,
    {
        proof {
            assert(rv[i as int] == req_scopes@[i as int]@);
        }
        if !contains_string(active_scopes, &req_scopes[i]) {
            return false;
        }
        i = i + 1;
    }
    true
}

/// Provision a new enabled user (privileged: requires the `authadmin`
/// scope on the caller's token).
///
/// The requested scopes are validated against the active registry alone; the
/// secret is hashed under a fresh salt; expiration is `now` plus the
/// caller-supplied lifetime. A duplicate name is rejected by the store and
/// surfaces as the generic failure, with nothing written.
pub fn create_user_sr(
    cdb: &mut CachedDb,
    bearer: &BearerToken,
    req: &CreateReq,
    now: u64,
) -> (r: Result<&'static str, AuthError>)
    requires
        old(cdb)@.wf(),
        no_time_overflow(old(cdb).serv, now),
        now + req.life <= u64::MAX,
        req.secret@.len() <= 0x3FFF_FFFF,
    ensures
        final(cdb)@.wf(),
        final(cdb)@.serv == old(cdb)@.serv,
        final(cdb)@.db.scopes == old(cdb)@.db.scopes,
        final(cdb)@.db.tokens == old(cdb)@.db.tokens,
        // denied: the corresponding error, and no row written
        !guard_scope_ok(old(cdb)@, bearer@, "authadmin"@, now) ==> r == Err::<
            &'static str,
            AuthError,
        >(guard_deny_error(old(cdb)@, bearer@, now)) && final(cdb)@.db.users == old(
            cdb,
        )@.db.users,
        guard_scope_ok(old(cdb)@, bearer@, "authadmin"@, now) ==> {
            let active = old(cdb)@.db.scopes;
            &&& (!spec_scopes_active(req.scopes.deep_view(), active) ==> r == Err::<
                &'static str,
                AuthError,
            >(AuthError::BadScopes) && final(cdb)@.db.users == old(cdb)@.db.users)
            &&& (spec_scopes_active(req.scopes.deep_view(), active) ==> {
                &&& (find_user(old(cdb)@.db.users, req.name@) is Some ==> r == Err::<
                    &'static str,
                    AuthError,
                >(AuthError::Failed) && final(cdb)@.db.users == old(cdb)@.db.users)
                &&& (find_user(old(cdb)@.db.users, req.name@) is None ==> {
                    let created = find_user(final(cdb)@.db.users, req.name@);
                    &&& r is Ok && r->Ok_0@ == "created"@
                    &&& final(cdb)@.db.users.len() == old(cdb)@.db.users.len() + 1
                    &&& created is Some
                    &&& created->Some_0.name == req.name@
                    &&& created->Some_0.enabled
                    &&& created->Some_0.expiration == now + req.life
                    &&& created->Some_0.scopes == req.scopes.deep_view()
                    &&& argon2_verifies(created->Some_0.hash, req.secret@)
                    &&& exists|salt: Seq<u8>|
                        salt.len() == 20 && created->Some_0.hash == argon2_digest_of(
                            req.secret@,
                            salt,
                        )
                })
            })
        },
{
    match bearer.require_scope(cdb, "authadmin", now) {
        Ok(_) => {},
        Err(e) => {
            return Err(e);
        },
    }
    let active_scopes = match get_scopes(cdb, now) {
        Ok(s) => s,
        Err(_) => {
            return Err(AuthError::Failed);
        },
    };
    if !scopes_valid(&req.scopes, &active_scopes) {
        return Err(AuthError::BadScopes);
    }

    let expire = now + req.life;
    let hash = hash_password(req.secret.as_str());
    let granted_scopes = req.scopes.clone();
    proof {
        assert(granted_scopes.deep_view() =~= req.scopes.deep_view());
    }
    let u = User {
        name: req.name.clone(),
        hash,
        expiration: expire,
        enabled: true,
        scopes: granted_scopes,
    };
    let ghost uv = u@;

    // the store's uniqueness constraint rejects an existing name
    match put_user(cdb, u) {
        Ok(_) => {},
        Err(_) => {
            return Err(AuthError::Failed);
        },
    }
    proof {
        crate::db::lemma_find_user_push(old(cdb)@.db.users, uv, uv.name);
    }
    Ok("created")
}

/// Route shape of [`create_user_sr`]: the wire envelope.
pub fn create_user(
    cdb: &mut CachedDb,
    bearer: &BearerToken,
    req: &CreateReq,
    now: u64,
) -> (r: JsonRes<&'static str>)
    requires
        old(cdb)@.wf(),
        no_time_overflow(old(cdb).serv, now),
        now + req.life <= u64::MAX,
        req.secret@.len() <= 0x3FFF_FFFF,
    ensures
        final(cdb)@.wf(),
        final(cdb)@.serv == old(cdb)@.serv,
        final(cdb)@.db.scopes == old(cdb)@.db.scopes,
        final(cdb)@.db.tokens == old(cdb)@.db.tokens,
        r is Err ==> final(cdb)@.db.users == old(cdb)@.db.users && r->Err_0.status@ == "error"@,
        r is Ok ==> r->Ok_0@ == "created"@ && guard_scope_ok(old(cdb)@, bearer@, "authadmin"@, now)
            && find_user(final(cdb)@.db.users, req.name@) is Some,
        // success is owed to an authorized caller with admissible scopes and
        // a fresh name
        guard_scope_ok(old(cdb)@, bearer@, "authadmin"@, now) && spec_scopes_active(
            req.scopes.deep_view(),
            old(cdb)@.db.scopes,
        ) && find_user(old(cdb)@.db.users, req.name@) is None ==> r is Ok,
{
    json_res(create_user_sr(cdb, bearer, req, now))
}

/// Register a new scope (privileged: requires the `authadmin` scope on the
/// caller's token). A duplicate name is rejected by the store and surfaces
/// as the generic failure; idempotency is not provided at this layer.
pub fn create_scope_sr(
    cdb: &mut CachedDb,
    bearer: &BearerToken,
    req: &String,
    now: u64,
) -> (r: Result<&'static str, AuthError>)
    requires
        old(cdb)@.wf(),
        no_time_overflow(old(cdb).serv, now),
    ensures
        final(cdb)@.wf(),
        final(cdb)@.serv == old(cdb)@.serv,
        final(cdb)@.db.users == old(cdb)@.db.users,
        final(cdb)@.db.tokens == old(cdb)@.db.tokens,
        !guard_scope_ok(old(cdb)@, bearer@, "authadmin"@, now) ==> r == Err::<
            &'static str,
            AuthError,
        >(guard_deny_error(old(cdb)@, bearer@, now)) && final(cdb)@.db.scopes == old(
            cdb,
        )@.db.scopes,
        guard_scope_ok(old(cdb)@, bearer@, "authadmin"@, now) ==> {
            &&& (old(cdb)@.db.scopes.contains(req@) ==> r == Err::<&'static str, AuthError>(
                AuthError::Failed,
            ) && final(cdb)@.db.scopes == old(cdb)@.db.scopes)
            &&& (!old(cdb)@.db.scopes.contains(req@) ==> r is Ok && r->Ok_0@ == "created"@
                && final(cdb)@.db.scopes == old(cdb)@.db.scopes.push(req@))
        },
{
    match bearer.require_scope(cdb, "authadmin", now) {
        Ok(_) => {},
        Err(e) => {
            return Err(e);
        },
    }
    match put_scope(cdb, req) {
        Ok(_) => Ok("created"),
        Err(_) => Err(AuthError::Failed),
    }
}

/// Route shape of [`create_scope_sr`]: the wire envelope.
pub fn create_scope(
    cdb: &mut CachedDb,
    bearer: &BearerToken,
    req: &String,
    now: u64,
) -> (r: JsonRes<&'static str>)
    requires
        old(cdb)@.wf(),
        no_time_overflow(old(cdb).serv, now),
    ensures
        final(cdb)@.wf(),
        final(cdb)@.serv == old(cdb)@.serv,
        final(cdb)@.db.users == old(cdb)@.db.users,
        final(cdb)@.db.tokens == old(cdb)@.db.tokens,
        r is Err ==> final(cdb)@.db.scopes == old(cdb)@.db.scopes && r->Err_0.status@
            == "error"@,
        r is Ok ==> r->Ok_0@ == "created"@ && guard_scope_ok(old(cdb)@, bearer@, "authadmin"@, now)
            && final(cdb)@.db.scopes == old(cdb)@.db.scopes.push(req@),
        // success is owed to an authorized caller registering a fresh name
        guard_scope_ok(old(cdb)@, bearer@, "authadmin"@, now) && !old(cdb)@.db.scopes.contains(
            req@,
        ) ==> r is Ok,
{
    json_res(create_scope_sr(cdb, bearer, req, now))
}

/// Advisory maintenance (privileged: requires the `authadmin` scope on the
/// caller's token): sweep stale cache entries and purge expired token rows.
pub fn clean_sr(cdb: &mut CachedDb, bearer: &BearerToken, now: u64) -> (r: Result<
    &'static str,
    AuthError,
>)
    requires
        old(cdb)@.wf(),
        no_time_overflow(old(cdb).serv, now),
    ensures
        final(cdb)@.wf(),
        final(cdb)@.serv == old(cdb)@.serv,
        final(cdb)@.db.users == old(cdb)@.db.users,
        final(cdb)@.db.scopes == old(cdb)@.db.scopes,
        !guard_scope_ok(old(cdb)@, bearer@, "authadmin"@, now) ==> r == Err::<
            &'static str,
            AuthError,
        >(guard_deny_error(old(cdb)@, bearer@, now)) && final(cdb)@.db.tokens == old(
            cdb,
        )@.db.tokens,
        guard_scope_ok(old(cdb)@, bearer@, "authadmin"@, now) ==> r is Ok && r->Ok_0@
            == "cleaned"@ && final(cdb)@.db.tokens == purge_spec(old(cdb)@.db.tokens, now),
{
    match bearer.require_scope(cdb, "authadmin", now) {
        Ok(_) => {},
        Err(e) => {
            return Err(e);
        },
    }
    let ghost mid = cdb@;
    cache::clean(cdb, now);
    proof {
        if mid.serv.use_cache {
            crate::repo::lemma_cache_sweep_coherent(mid.cache, mid.db, now);
        }
    }
    match token::clean(cdb, now) {
        Ok(_) => {},
        Err(_) => {},
    }
    Ok("cleaned")
}

/// Route shape of [`clean_sr`]: the wire envelope.
pub fn clean(cdb: &mut CachedDb, bearer: &BearerToken, now: u64) -> (r: JsonRes<&'static str>)
    requires
        old(cdb)@.wf(),
        no_time_overflow(old(cdb).serv, now),
    ensures
        final(cdb)@.wf(),
        final(cdb)@.serv == old(cdb)@.serv,
        final(cdb)@.db.users == old(cdb)@.db.users,
        final(cdb)@.db.scopes == old(cdb)@.db.scopes,
        r is Err ==> final(cdb)@.db.tokens == old(cdb)@.db.tokens && r->Err_0.status@
            == "error"@,
        r is Ok ==> r->Ok_0@ == "cleaned"@ && final(cdb)@.db.tokens == purge_spec(
            old(cdb)@.db.tokens,
            now,
        ),
        // success is owed to every authorized caller
        guard_scope_ok(old(cdb)@, bearer@, "authadmin"@, now) ==> r is Ok,
{
    json_res(clean_sr(cdb, bearer, now))
}

} // verus!
