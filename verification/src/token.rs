use vstd::prelude::*;

use crate::cache::{self, CacheVal, CacheValV, EntryV, del_entry, spec_lookup};
use crate::db::{DbV, StoreError, find_token, lemma_find_token_push, lemma_find_token_some,
    purge_spec};
use crate::repo::{
    CachedDb, CachedDbV, Ev, Event, lemma_cache_del_any, lemma_cache_set_token,
    lemma_db_purge_tokens, lemma_db_push_token, no_time_overflow, token_key_v,
};

verus! {

/// Mathematical model of a [`Token`] record.
pub struct TokenV {
    pub token: Seq<char>,
    pub username: Seq<char>,
    pub expiration: u64,
    pub scopes: Seq<Seq<char>>,
}

/// An issued session credential.
///
/// `token` is an opaque random identifier; `scopes` is the capability subset
/// granted to this session. A token is never updated; it becomes logically
/// invalid once `now >= expiration`.
#[derive(Debug)]
pub struct Token {
    pub token: String,
    pub username: String,
    pub expiration: u64,
    pub scopes: Vec<String>,
}

impl View for Token {
    type V = TokenV;

    open spec fn view(&self) -> TokenV {
        TokenV {
            token: self.token@,
            username: self.username@,
            expiration: self.expiration,
            scopes: self.scopes.deep_view(),
        }
    }
}

impl DeepView for Token {
    type V = TokenV;

    open spec fn deep_view(&self) -> TokenV {
        self.view()
    }
}

impl Clone for Token {
    fn clone(&self) -> (res: Self)
        ensures
            res@ == self@,
    {
        let scopes = self.scopes.clone();
        proof {
            assert(scopes.deep_view() =~= self.scopes.deep_view());
        }
        Token {
            token: self.token.clone(),
            username: self.username.clone(),
            expiration: self.expiration,
            scopes,
        }
    }
}

/// Whole seconds a token has left at instant `now`: `max(0, expiration - now)`.
pub open spec fn spec_seconds_left(expiration: u64, now: u64) -> u64 {
    if now >= expiration {
        0u64
    } else {
        (expiration - now) as u64
    }
}

impl Token {
    /// A token is expired exactly when `now >= expiration`.
    pub fn is_expired(&self, now: u64) -> (r: bool)
        ensures
            r == (now >= self.expiration),
    {
        self.seconds_left(now) == 0
    }

    /// Remaining lifetime in whole seconds; never negative.
    pub fn seconds_left(&self, now: u64) -> (r: u64)
        ensures
            r == spec_seconds_left(self.expiration, now),
            r == 0 <==> now >= self.expiration,
    {
        if now >= self.expiration {
            0
        } else {
            self.expiration - now
        }
    }
}

/// As the clock advances, the seconds left on a token never increase, and
/// are never negative.
pub proof fn lemma_seconds_left_monotonic(expiration: u64, now1: u64, now2: u64)
    requires
        now1 <= now2,
    ensures
        spec_seconds_left(expiration, now2) <= spec_seconds_left(expiration, now1),
        spec_seconds_left(expiration, now2) >= 0,
{
}

/// Cache key of the token record with identifier `k`.
fn cache_key(k: &str) -> (r: String)
    ensures
        r@ == token_key_v(k@),
{
    let mut key = "token_".to_owned();
    key.append(k);
    key
}

/// What a token read yields: the live cached copy when there is one,
/// otherwise the store row.
pub open spec fn lookup_token_spec(c: CachedDbV, id: Seq<char>, now: u64) -> Option<TokenV> {
    if c.serv.use_cache && spec_lookup(c.cache, token_key_v(id), now) is Some {
        Some(spec_lookup(c.cache, token_key_v(id), now)->Some_0->Token_0)
    } else {
        find_token(c.db.tokens, id)
    }
}

/// The whole effect a token read has on the repository: a live cache hit
/// leaves it untouched; otherwise exactly one store read is recorded,
/// followed by a lazy fill of that token's key — and nothing else — when the
/// row exists and caching is enabled.
pub open spec fn token_read_effect(pre: CachedDbV, post: CachedDbV, id: Seq<char>, now: u64) -> bool {
    if pre.serv.use_cache && spec_lookup(pre.cache, token_key_v(id), now) is Some {
        post == pre
    } else if pre.serv.use_cache && find_token(pre.db.tokens, id) is Some {
        post == (CachedDbV {
            cache: del_entry(pre.cache, token_key_v(id)).push(
                EntryV {
                    key: token_key_v(id),
                    val: CacheValV::Token(find_token(pre.db.tokens, id)->Some_0),
                    expires: (now + pre.serv.cache_lifetime as u64) as u64,
                },
            ),
            events: pre.events.push(Ev::StoreRead(token_key_v(id))).push(
                Ev::CacheSet(token_key_v(id)),
            ),
            ..pre
        })
    } else {
        post == (CachedDbV { events: pre.events.push(Ev::StoreRead(token_key_v(id))), ..pre })
    }
}

/// Cache-aside read of a token: serve a live cached copy without touching the
/// store; otherwise read the store and lazily fill the cache. A purged row
/// may still be served from the cache until its TTL runs out.
pub fn get_token(cdb: &mut CachedDb, name: String, now: u64) -> (r: Result<Token, StoreError>)
    requires
        old(cdb)@.wf(),
        no_time_overflow(old(cdb).serv, now),
    ensures
        final(cdb)@.wf(),
        final(cdb)@.db == old(cdb)@.db,
        final(cdb)@.serv == old(cdb)@.serv,
        r is Ok <==> lookup_token_spec(old(cdb)@, name@, now) is Some,
        r is Ok ==> r->Ok_0@ == lookup_token_spec(old(cdb)@, name@, now)->Some_0,
        r is Ok ==> r->Ok_0@.token == name@,
        r is Err ==> r == Err::<Token, StoreError>(StoreError::NotFound),
        token_read_effect(old(cdb)@, final(cdb)@, name@, now),
{
    let key = cache_key(name.as_str());
    match cache::get(cdb, &key, now) {
        Some(v) => match v {
            CacheVal::Token(t) => {
                proof {
                    assert(crate::cache::find_entry(old(cdb)@.cache, token_key_v(name@)) is Some);
                }
                Ok(t)
            },
            _ => {
                proof {
                    assert(crate::cache::find_entry(old(cdb)@.cache, token_key_v(name@)) is Some);
                    assert(false);
                }
                vstd::pervasive::unreached()
            },
        },
        None => {
            cdb.events.push(Event::StoreRead(key.clone()));
            proof {
                assert(cdb.events.deep_view() =~= old(cdb)@.events.push(
                    Ev::StoreRead(token_key_v(name@)),
                ));
            }
            let res = cdb.db.get_token(&name);
            match res {
                Some(t) => {
                    proof {
                        lemma_find_token_some(old(cdb)@.db.tokens, name@);
                    }
                    let ghost mid = cdb@;
                    let c = t.clone();
                    cache::put(cdb, &key, CacheVal::Token(c), now);
                    proof {
                        if old(cdb).serv.use_cache {
                            lemma_cache_set_token(
                                mid.cache,
                                mid.db,
                                name@,
                                t@,
                                (now + old(cdb).serv.cache_lifetime as u64) as u64,
                            );
                            assert(cdb@.events =~= old(cdb)@.events.push(
                                Ev::StoreRead(token_key_v(name@)),
                            ).push(Ev::CacheSet(token_key_v(name@))));
                        }
                    }
                    Ok(t)
                },
                None => Err(StoreError::NotFound),
            }
        },
    }
}

/// Persist a freshly issued token. The cache entry for its identifier is
/// deleted *before* the insert is issued to the store; after a successful
/// insert the fresh row is mirrored back into the cache. A colliding
/// identifier is rejected by the store's uniqueness constraint and surfaces
/// as an error, leaving the key invalidated but not re-filled.
pub fn put_token(cdb: &mut CachedDb, tok: &Token, now: u64) -> (r: Result<(), StoreError>)
    requires
        old(cdb)@.wf(),
        no_time_overflow(old(cdb).serv, now),
    ensures
        final(cdb)@.wf(),
        final(cdb)@.serv == old(cdb)@.serv,
        r is Ok <==> find_token(old(cdb)@.db.tokens, tok@.token) is None,
        r is Ok ==> final(cdb)@.db == (DbV {
            tokens: old(cdb)@.db.tokens.push(tok@),
            ..old(cdb)@.db
        }),
        r is Err ==> final(cdb)@.db == old(cdb)@.db && r == Err::<(), StoreError>(
            StoreError::Duplicate,
        ),
        // invalidation precedes the store write in the operation log; the
        // mirror of the fresh row follows a successful insert
        old(cdb).serv.use_cache ==> {
            let tk = token_key_v(tok@.token);
            &&& (r is Ok ==> final(cdb)@.cache == del_entry(old(cdb)@.cache, tk).push(
                EntryV {
                    key: tk,
                    val: CacheValV::Token(tok@),
                    expires: (now + old(cdb).serv.cache_lifetime as u64) as u64,
                },
            ) && final(cdb)@.events == old(cdb)@.events.push(Ev::CacheDel(tk)).push(
                Ev::StoreWrite(tk),
            ).push(Ev::CacheSet(tk)))
            &&& (r is Err ==> final(cdb)@.cache == del_entry(old(cdb)@.cache, tk)
                && final(cdb)@.events == old(cdb)@.events.push(Ev::CacheDel(tk)).push(
                    Ev::StoreWrite(tk),
                ))
        },
        !old(cdb).serv.use_cache ==> final(cdb)@.cache == old(cdb)@.cache && final(cdb)@.events
            == old(cdb)@.events.push(Ev::StoreWrite(token_key_v(tok@.token))),
{
    let key = cache_key(tok.token.as_str());
    let ghost tv = tok@;
    cache::del(cdb, &key);
    proof {
        if old(cdb).serv.use_cache {
            lemma_cache_del_any(old(cdb)@.cache, old(cdb)@.db, token_key_v(tv.token));
            crate::cache::lemma_del_entry(old(cdb)@.cache, token_key_v(tv.token));
        }
    }
    cdb.events.push(Event::StoreWrite(key.clone()));
    proof {
        if old(cdb).serv.use_cache {
            assert(cdb.events.deep_view() =~= old(cdb)@.events.push(
                Ev::CacheDel(token_key_v(tv.token)),
            ).push(Ev::StoreWrite(token_key_v(tv.token))));
        } else {
            assert(cdb.events.deep_view() =~= old(cdb)@.events.push(
                Ev::StoreWrite(token_key_v(tv.token)),
            ));
        }
    }
    let ghost mid = cdb@;
    let res = cdb.db.add_token(tok.clone());
    match res {
        None => Err(StoreError::Duplicate),
        Some(_) => {
            let ghost db2 = cdb@.db;
            let c = tok.clone();
            cache::put(cdb, &key, CacheVal::Token(c), now);
            proof {
                lemma_find_token_push(old(cdb)@.db.tokens, tv, tv.token);
                if old(cdb).serv.use_cache {
                    let tk = token_key_v(tv.token);
                    let c1 = del_entry(old(cdb)@.cache, tk);
                    lemma_db_push_token(c1, old(cdb)@.db, tv);
                    lemma_cache_set_token(
                        c1,
                        db2,
                        tv.token,
                        tv,
                        (now + old(cdb).serv.cache_lifetime as u64) as u64,
                    );
                    crate::cache::lemma_find_entry_none(c1, tk);
                    crate::cache::lemma_del_entry_absent(c1, tk);
                    assert(cdb@.events =~= old(cdb)@.events.push(Ev::CacheDel(tk)).push(
                        Ev::StoreWrite(tk),
                    ).push(Ev::CacheSet(tk)));
                } else {
                    lemma_db_push_token(old(cdb)@.cache, old(cdb)@.db, tv);
                }
            }
            Ok(())
        },
    }
}

/// Cache round trip: a token write leaves the cache exactly as
/// [`put_token`]'s contract states, and a read of the same identifier at any
/// instant before the entry's TTL expiry resolves to the written token from
/// the cache. By [`get_token`]'s contract such a hit leaves the repository —
/// including its operation log — untouched, so no store read occurs on the
/// second call.
pub proof fn lemma_cache_round_trip(c: CachedDbV, t: TokenV, now: u64, now2: u64)
    requires
        crate::cache::unique_entry_keys(c.cache),
        c.serv.use_cache,
        now + c.serv.cache_lifetime <= u64::MAX,
        now2 < now + c.serv.cache_lifetime,
    ensures
        ({
            let written = CachedDbV {
                cache: del_entry(c.cache, token_key_v(t.token)).push(
                    EntryV {
                        key: token_key_v(t.token),
                        val: CacheValV::Token(t),
                        expires: (now + c.serv.cache_lifetime as u64) as u64,
                    },
                ),
                ..c
            };
            lookup_token_spec(written, t.token, now2) == Some(t)
        }),
{
    let key = token_key_v(t.token);
    let e = EntryV {
        key,
        val: CacheValV::Token(t),
        expires: (now + c.serv.cache_lifetime as u64) as u64,
    };
    crate::cache::lemma_del_entry(c.cache, key);
    crate::cache::lemma_find_entry_push(del_entry(c.cache, key), e, key);
}

/// Bulk-delete expired token rows from the store. Per-key cache entries for
/// purged rows are left to self-expire by TTL — an accepted staleness window.
pub fn clean(cdb: &mut CachedDb, now: u64) -> (r: Result<usize, StoreError>)
    requires
        old(cdb)@.wf(),
    ensures
        final(cdb)@.wf(),
        final(cdb)@.serv == old(cdb)@.serv,
        final(cdb)@.cache == old(cdb)@.cache,
        final(cdb)@.events == old(cdb)@.events,
        final(cdb)@.db == (DbV { tokens: purge_spec(old(cdb)@.db.tokens, now), ..old(cdb)@.db }),
        r is Ok,
        r->Ok_0 == old(cdb)@.db.tokens.len() - final(cdb)@.db.tokens.len(),
{
    let n = cdb.db.purge_expired(now);
    proof {
        lemma_db_purge_tokens(old(cdb)@.cache, old(cdb)@.db, now);
    }
    Ok(n)
}

} // verus!
