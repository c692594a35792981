use vstd::prelude::*;

use crate::db::contains_string;
use crate::json::{AuthError, true_or_err};
use crate::repo::{CachedDb, CachedDbV, no_time_overflow};
use crate::token::{self, Token, lookup_token_spec, token_read_effect};

verus! {

/// Authorization information from a bearer credential: the opaque token
/// identifier presented by the caller, if any. Presenting no credential and
/// presenting an unknown one fail alike, so nothing can be enumerated.
pub struct BearerToken {
    pub header: Option<String>,
}

impl View for BearerToken {
    type V = Option<Seq<char>>;

    open spec fn view(&self) -> Option<Seq<char>> {
        match &self.header {
            Some(s) => Some(s@),
            None => None,
        }
    }
}

/// The credential carried by an authorization header value, if the value is
/// well-formed: the case-sensitive prefix `bearer ` followed by the token.
pub open spec fn spec_bearer_of(h: Option<Seq<char>>) -> Option<Seq<char>> {
    match h {
        None => None,
        Some(s) => if s.len() >= 7 && s.subrange(0, 7) == "bearer "@ {
            Some(s.subrange(7, s.len() as int))
        } else {
            None
        },
    }
}

/// Whether the bearer credential authorizes `scope` at instant `now`: it
/// resolves to a token that is not expired and carries the scope.
pub open spec fn guard_scope_ok(
    c: CachedDbV,
    bearer: Option<Seq<char>>,
    scope: Seq<char>,
    now: u64,
) -> bool {
    match bearer {
        None => false,
        Some(h) => match lookup_token_spec(c, h, now) {
            None => false,
            Some(t) => now < t.expiration && t.scopes.contains(scope),
        },
    }
}

/// The error owed when the bearer credential does not authorize: `Expired`
/// exactly for a resolved but stale token, `BadAuth` for everything else.
pub open spec fn guard_deny_error(
    c: CachedDbV,
    bearer: Option<Seq<char>>,
    now: u64,
) -> AuthError {
    match bearer {
        None => AuthError::BadAuth,
        Some(h) => match lookup_token_spec(c, h, now) {
            None => AuthError::BadAuth,
            Some(t) => if now >= t.expiration {
                AuthError::Expired
            } else {
                AuthError::BadAuth
            },
        },
    }
}

impl BearerToken {
    pub fn new(hdr: Option<&str>) -> (r: Self)
        ensures
            r@ == match hdr {
                Some(s) => Some(s@),
                None => None::<Seq<char>>,
            },
    {
        BearerToken {
            header: match hdr {
                Some(s) => Some(s.to_owned()),
                None => None,
            },
        }
    }

    /// Extract the credential from an inbound authorization header value:
    /// the `bearer ` prefix is stripped; a missing or malformed header gives
    /// a bearer that fails every check.
    pub fn from_header(hdr: Option<&str>) -> (r: Self)
        ensures
            r@ == spec_bearer_of(match hdr {
                Some(s) => Some(s@),
                None => None::<Seq<char>>,
            }),
    {
        match hdr {
            None => BearerToken { header: None },
            Some(h) => {
                let n = h.unicode_len();
                if n < 7 {
                    return BearerToken { header: None };
                }
                let prefix = h.substring_char(0, 7).to_owned();
                let expected = "bearer ".to_owned();
                if prefix == expected {
                    let tok = h.substring_char(7, n).to_owned();
                    BearerToken { header: Some(tok) }
                } else {
                    BearerToken { header: None }
                }
            },
        }
    }

    /// Resolve the credential to its token: `BadAuth` when the credential is
    /// missing or resolves to nothing (deliberately indistinguishable),
    /// `Expired` when the token is past its expiration.
    pub fn lookup(&self, cdb: &mut CachedDb, now: u64) -> (r: Result<Token, AuthError>)
        requires
            old(cdb)@.wf(),
            no_time_overflow(old(cdb).serv, now),
        ensures
            final(cdb)@.wf(),
            final(cdb)@.db == old(cdb)@.db,
            final(cdb)@.serv == old(cdb)@.serv,
            self@ is None ==> r == Err::<Token, AuthError>(AuthError::BadAuth) && *final(cdb)
                == *old(cdb),
            self@ is Some ==> token_read_effect(old(cdb)@, final(cdb)@, self@->Some_0, now),
            self@ is Some ==> {
                let l = lookup_token_spec(old(cdb)@, self@->Some_0, now);
                &&& l is None ==> r == Err::<Token, AuthError>(AuthError::BadAuth)
                &&& (l is Some && now >= l->Some_0.expiration) ==> r == Err::<Token, AuthError>(
                    AuthError::Expired,
                )
                &&& (l is Some && now < l->Some_0.expiration) ==> r is Ok && r->Ok_0@
                    == l->Some_0
            },
    {
        let header = match &self.header {
            Some(h) => h.clone(),
            None => {
                return Err(AuthError::BadAuth);
            },
        };
        let tok = match token::get_token(cdb, header, now) {
            Ok(t) => t,
            Err(_) => {
                return Err(AuthError::BadAuth);
            },
        };
        let valid = !tok.is_expired(now);
        true_or_err(valid, tok, AuthError::Expired)
    }

    /// Succeed exactly when the credential resolves to a live token carrying
    /// `scope`; no observable side effect beyond the cache fill of the read.
    pub fn require_scope(&self, cdb: &mut CachedDb, scope: &str, now: u64) -> (r: Result<
        (),
        AuthError,
    >)
        requires
            old(cdb)@.wf(),
            no_time_overflow(old(cdb).serv, now),
        ensures
            final(cdb)@.wf(),
            final(cdb)@.db == old(cdb)@.db,
            final(cdb)@.serv == old(cdb)@.serv,
            self@ is None ==> *final(cdb) == *old(cdb),
            self@ is Some ==> token_read_effect(old(cdb)@, final(cdb)@, self@->Some_0, now),
            r is Ok <==> guard_scope_ok(old(cdb)@, self@, scope@, now),
            r is Err ==> r->Err_0 == guard_deny_error(old(cdb)@, self@, now),
    {
        let tok = match self.lookup(cdb, now) {
            Ok(t) => t,
            Err(e) => {
                return Err(e);
            },
        };
        let want = scope.to_owned();
        let valid = contains_string(&tok.scopes, &want);
        true_or_err(valid, (), AuthError::BadAuth)
    }

    /// Succeed when the credential resolves to a live token that either
    /// belongs to `user` or carries `scope`.
    pub fn require_user_or_scope(
        &self,
        cdb: &mut CachedDb,
        user: &str,
        scope: &str,
        now: u64,
    ) -> (r: Result<(), AuthError>)
        requires
            old(cdb)@.wf(),
            no_time_overflow(old(cdb).serv, now),
        ensures
            final(cdb)@.wf(),
            final(cdb)@.db == old(cdb)@.db,
            final(cdb)@.serv == old(cdb)@.serv,
            self@ is None ==> *final(cdb) == *old(cdb),
            self@ is Some ==> token_read_effect(old(cdb)@, final(cdb)@, self@->Some_0, now),
            r is Ok <==> (self@ is Some && {
                let l = lookup_token_spec(old(cdb)@, self@->Some_0, now);
                l is Some && now < l->Some_0.expiration && (l->Some_0.username == user@
                    || l->Some_0.scopes.contains(scope@))
            }),
            r is Err ==> r->Err_0 == guard_deny_error(old(cdb)@, self@, now),
    {
        let tok = match self.lookup(cdb, now) {
            Ok(t) => t,
            Err(e) => {
                return Err(e);
            },
        };
        let uname = user.to_owned();
        let want = scope.to_owned();
        let valid = tok.username == uname || contains_string(&tok.scopes, &want);
        true_or_err(valid, (), AuthError::BadAuth)
    }
}

} // verus!
