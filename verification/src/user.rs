use vstd::prelude::*;

use crate::cache::{self, CacheVal, CacheValV, EntryV, del_entry, spec_lookup};
use crate::db::{StoreError, find_user, lemma_find_user_some};
use crate::repo::{
    CachedDb, CachedDbV, Ev, Event, lemma_cache_del_any, lemma_cache_set_user, lemma_db_push_user,
    no_time_overflow, user_key_v,
};

verus! {

/// Mathematical model of a [`User`] record.
pub struct UserV {
    pub name: Seq<char>,
    pub hash: Seq<char>,
    pub expiration: u64,
    pub enabled: bool,
    pub scopes: Seq<Seq<char>>,
}

/// An identity record: immutable once created, never deleted.
///
/// A user is *active* at instant `now` iff `enabled` and `now < expiration`.
/// `scopes` lists every capability the user may ever be granted.
pub struct User {
    pub name: String,
    pub hash: String,
    pub expiration: u64,
    pub enabled: bool,
    pub scopes: Vec<String>,
}

impl View for User {
    type V = UserV;

    open spec fn view(&self) -> UserV {
        UserV {
            name: self.name@,
            hash: self.hash@,
            expiration: self.expiration,
            enabled: self.enabled,
            scopes: self.scopes.deep_view(),
        }
    }
}

impl DeepView for User {
    type V = UserV;

    open spec fn deep_view(&self) -> UserV {
        self.view()
    }
}

impl Clone for User {
    fn clone(&self) -> (res: Self)
        ensures
            res@ == self@,
    {
        let scopes = self.scopes.clone();
        proof {
            assert(scopes.deep_view() =~= self.scopes.deep_view());
        }
        User {
            name: self.name.clone(),
            hash: self.hash.clone(),
            expiration: self.expiration,
            enabled: self.enabled,
            scopes,
        }
    }
}

impl User {
    /// A user record is stale once `now` reaches its expiration instant.
    pub fn is_expired(&self, now: u64) -> (r: bool)
        ensures
            r == (now >= self.expiration),
    {
        now >= self.expiration
    }

    /// Active means enabled and not yet expired.
    pub fn is_enabled(&self, now: u64) -> (r: bool)
        ensures
            r == (self.enabled && now < self.expiration),
    {
        self.enabled && !self.is_expired(now)
    }
}

/// Cache key of the user record named `k`.
fn cache_key(k: &str) -> (r: String)
    ensures
        r@ == user_key_v(k@),
{
    let mut key = "user_".to_owned();
    key.append(k);
    key
}

/// The whole effect a user read has on the repository: a live cache hit
/// leaves it untouched; otherwise exactly one store read is recorded,
/// followed by a lazy fill of that user's key — and nothing else — when the
/// row exists and caching is enabled.
pub open spec fn user_read_effect(pre: CachedDbV, post: CachedDbV, name: Seq<char>, now: u64) -> bool {
    if pre.serv.use_cache && spec_lookup(pre.cache, user_key_v(name), now) is Some {
        post == pre
    } else if pre.serv.use_cache && find_user(pre.db.users, name) is Some {
        post == (CachedDbV {
            cache: del_entry(pre.cache, user_key_v(name)).push(
                EntryV {
                    key: user_key_v(name),
                    val: CacheValV::User(find_user(pre.db.users, name)->Some_0),
                    expires: (now + pre.serv.cache_lifetime as u64) as u64,
                },
            ),
            events: pre.events.push(Ev::StoreRead(user_key_v(name))).push(
                Ev::CacheSet(user_key_v(name)),
            ),
            ..pre
        })
    } else {
        post == (CachedDbV { events: pre.events.push(Ev::StoreRead(user_key_v(name))), ..pre })
    }
}

/// Cache-aside read of a user: serve a live cached copy without touching the
/// store; otherwise read the store and lazily fill the cache.
pub fn get_user(cdb: &mut CachedDb, name: String, now: u64) -> (r: Result<User, StoreError>)
    requires
        old(cdb)@.wf(),
        no_time_overflow(old(cdb).serv, now),
    ensures
        final(cdb)@.wf(),
        final(cdb)@.db == old(cdb)@.db,
        final(cdb)@.serv == old(cdb)@.serv,
        r is Ok <==> find_user(old(cdb)@.db.users, name@) is Some,
        r is Ok ==> r->Ok_0@ == find_user(old(cdb)@.db.users, name@)->Some_0,
        r is Err ==> r == Err::<User, StoreError>(StoreError::NotFound),
        user_read_effect(old(cdb)@, final(cdb)@, name@, now),
{
    let key = cache_key(name.as_str());
    match cache::get(cdb, &key, now) {
        Some(v) => match v {
            CacheVal::User(u) => {
                proof {
                    assert(crate::cache::find_entry(old(cdb)@.cache, user_key_v(name@)) is Some);
                }
                Ok(u)
            },
            _ => {
                proof {
                    assert(crate::cache::find_entry(old(cdb)@.cache, user_key_v(name@)) is Some);
                    assert(false);
                }
                vstd::pervasive::unreached()
            },
        },
        None => {
            cdb.events.push(Event::StoreRead(key.clone()));
            proof {
                assert(cdb.events.deep_view() =~= old(cdb)@.events.push(
                    Ev::StoreRead(user_key_v(name@)),
                ));
            }
            let res = cdb.db.get_user(&name);
            match res {
                Some(u) => {
                    proof {
                        lemma_find_user_some(old(cdb)@.db.users, name@);
                    }
                    let ghost mid = cdb@;
                    let c = u.clone();
                    cache::put(cdb, &key, CacheVal::User(c), now);
                    proof {
                        if old(cdb).serv.use_cache {
                            lemma_cache_set_user(
                                mid.cache,
                                mid.db,
                                name@,
                                u@,
                                (now + old(cdb).serv.cache_lifetime as u64) as u64,
                            );
                            assert(cdb@.events =~= old(cdb)@.events.push(
                                Ev::StoreRead(user_key_v(name@)),
                            ).push(Ev::CacheSet(user_key_v(name@))));
                        }
                    }
                    Ok(u)
                },
                None => Err(StoreError::NotFound),
            }
        },
    }
}

/// Cache-aside write of a user: the cache entry is deleted *before* the
/// store insert is issued, and never re-filled here.
pub fn put_user(cdb: &mut CachedDb, u: User) -> (r: Result<(), StoreError>)
    requires
        old(cdb)@.wf(),
    ensures
        final(cdb)@.wf(),
        final(cdb)@.serv == old(cdb)@.serv,
        // invalidation precedes the store write in the operation log
        final(cdb)@.events == if old(cdb).serv.use_cache {
            old(cdb)@.events.push(Ev::CacheDel(user_key_v(u@.name))).push(
                Ev::StoreWrite(user_key_v(u@.name)),
            )
        } else {
            old(cdb)@.events.push(Ev::StoreWrite(user_key_v(u@.name)))
        },
        final(cdb)@.cache == if old(cdb).serv.use_cache {
            del_entry(old(cdb)@.cache, user_key_v(u@.name))
        } else {
            old(cdb)@.cache
        },
        r is Ok <==> find_user(old(cdb)@.db.users, u@.name) is None,
        r is Ok ==> final(cdb)@.db == (crate::db::DbV {
            users: old(cdb)@.db.users.push(u@),
            ..old(cdb)@.db
        }),
        r is Err ==> final(cdb)@.db == old(cdb)@.db && r == Err::<(), StoreError>(
            StoreError::Duplicate,
        ),
{
    let key = cache_key(u.name.as_str());
    let ghost uv = u@;
    cache::del(cdb, &key);
    proof {
        if old(cdb).serv.use_cache {
            lemma_cache_del_any(old(cdb)@.cache, old(cdb)@.db, user_key_v(uv.name));
            crate::cache::lemma_find_entry_none(cdb@.cache, user_key_v(uv.name));
        }
    }
    cdb.events.push(Event::StoreWrite(key));
    proof {
        if old(cdb).serv.use_cache {
            assert(cdb.events.deep_view() =~= old(cdb)@.events.push(
                Ev::CacheDel(user_key_v(uv.name)),
            ).push(Ev::StoreWrite(user_key_v(uv.name))));
        } else {
            assert(cdb.events.deep_view() =~= old(cdb)@.events.push(
                Ev::StoreWrite(user_key_v(uv.name)),
            ));
        }
    }
    let ghost mid = cdb@;
    let res = cdb.db.add_user(u);
    proof {
        if res is Some {
            lemma_db_push_user(mid.cache, mid.db, uv);
        }
    }
    match res {
        Some(_) => Ok(()),
        None => Err(StoreError::Duplicate),
    }
}

/// Cache round trip for users: a lazy fill leaves the cache exactly as
/// [`get_user`]'s contract states, and a second read of the same name at any
/// instant before the entry's TTL expiry resolves to the same stored row
/// from the cache. By [`get_user`]'s contract such a hit leaves the
/// repository — including its operation log — untouched, so no store read
/// occurs on the second call.
pub proof fn lemma_user_round_trip(c: CachedDbV, u: UserV, now: u64, now2: u64)
    requires
        crate::cache::unique_entry_keys(c.cache),
        c.serv.use_cache,
        now + c.serv.cache_lifetime <= u64::MAX,
        now2 < now + c.serv.cache_lifetime,
    ensures
        ({
            let filled = del_entry(c.cache, user_key_v(u.name)).push(
                EntryV {
                    key: user_key_v(u.name),
                    val: CacheValV::User(u),
                    expires: (now + c.serv.cache_lifetime as u64) as u64,
                },
            );
            spec_lookup(filled, user_key_v(u.name), now2) == Some(CacheValV::User(u))
        }),
{
    let key = user_key_v(u.name);
    let e = EntryV {
        key,
        val: CacheValV::User(u),
        expires: (now + c.serv.cache_lifetime as u64) as u64,
    };
    crate::cache::lemma_del_entry(c.cache, key);
    crate::cache::lemma_find_entry_push(del_entry(c.cache, key), e, key);
}

} // verus!
