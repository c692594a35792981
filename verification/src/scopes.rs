use vstd::prelude::*;

use crate::cache::{self, CacheVal, del_entry, spec_lookup};
use crate::db::{DbV, StoreError};
use crate::repo::{
    CachedDb, Ev, Event, lemma_cache_del_any, lemma_cache_set_scopes, lemma_db_push_scope,
    no_time_overflow, scopes_key_v,
};

verus! {

/// One row of the global capability registry.
pub struct Scope {
    pub name: String,
}

impl View for Scope {
    type V = Seq<char>;

    open spec fn view(&self) -> Seq<char> {
        self.name@
    }
}

/// Cache key of the aggregate active-scope list.
fn cache_key() -> (r: String)
    ensures
        r@ == scopes_key_v(),
{
    "scopes".to_owned()
}

/// Cache-aside read of the full active-scope list: serve a live cached copy
/// without touching the store; otherwise read the store and lazily fill the
/// cache.
pub fn get_scopes(cdb: &mut CachedDb, now: u64) -> (r: Result<Vec<String>, StoreError>)
    requires
        old(cdb)@.wf(),
        no_time_overflow(old(cdb).serv, now),
    ensures
        final(cdb)@.wf(),
        final(cdb)@.db == old(cdb)@.db,
        final(cdb)@.serv == old(cdb)@.serv,
        r is Ok,
        r->Ok_0.deep_view() == old(cdb)@.db.scopes,
        // a live cache hit is served with no store access and no state change
        old(cdb).serv.use_cache && spec_lookup(old(cdb)@.cache, scopes_key_v(), now) is Some
            ==> *final(cdb) == *old(cdb),
        // otherwise one store read, then (cache enabled) one fill
        !(old(cdb).serv.use_cache && spec_lookup(old(cdb)@.cache, scopes_key_v(), now) is Some)
            ==> final(cdb)@.events == if old(cdb).serv.use_cache {
                old(cdb)@.events.push(Ev::StoreRead(scopes_key_v())).push(
                    Ev::CacheSet(scopes_key_v()),
                )
            } else {
                old(cdb)@.events.push(Ev::StoreRead(scopes_key_v()))
            },
        !old(cdb).serv.use_cache ==> final(cdb)@.cache == old(cdb)@.cache,
{
    let key = cache_key();
    match cache::get(cdb, &key, now) {
        Some(v) => match v {
            CacheVal::Scopes(s) => {
                proof {
                    assert(crate::cache::find_entry(old(cdb)@.cache, scopes_key_v()) is Some);
                }
                Ok(s)
            },
            _ => {
                proof {
                    assert(crate::cache::find_entry(old(cdb)@.cache, scopes_key_v()) is Some);
                    assert(false);
                }
                vstd::pervasive::unreached()
            },
        },
        None => {
            cdb.events.push(Event::StoreRead(key.clone()));
            proof {
                assert(cdb.events.deep_view() =~= old(cdb)@.events.push(
                    Ev::StoreRead(scopes_key_v()),
                ));
            }
            let names = cdb.db.get_scopes();
            let ghost mid = cdb@;
            let c = names.clone();
            proof {
                assert(c.deep_view() =~= names.deep_view());
            }
            cache::put(cdb, &key, CacheVal::Scopes(c), now);
            proof {
                if old(cdb).serv.use_cache {
                    lemma_cache_set_scopes(
                        mid.cache,
                        mid.db,
                        names.deep_view(),
                        (now + old(cdb).serv.cache_lifetime as u64) as u64,
                    );
                }
            }
            Ok(names)
        },
    }
}

/// Register a scope: the cached aggregate list is invalidated *before* the
/// store insert is issued. A duplicate name is rejected by the store.
pub fn put_scope(cdb: &mut CachedDb, newscope: &String) -> (r: Result<(), StoreError>)
    requires
        old(cdb)@.wf(),
    ensures
        final(cdb)@.wf(),
        final(cdb)@.serv == old(cdb)@.serv,
        // invalidation precedes the store write in the operation log
        final(cdb)@.events == if old(cdb).serv.use_cache {
            old(cdb)@.events.push(Ev::CacheDel(scopes_key_v())).push(
                Ev::StoreWrite(scopes_key_v()),
            )
        } else {
            old(cdb)@.events.push(Ev::StoreWrite(scopes_key_v()))
        },
        final(cdb)@.cache == if old(cdb).serv.use_cache {
            del_entry(old(cdb)@.cache, scopes_key_v())
        } else {
            old(cdb)@.cache
        },
        r is Ok <==> !old(cdb)@.db.scopes.contains(newscope@),
        r is Ok ==> final(cdb)@.db == (DbV {
            scopes: old(cdb)@.db.scopes.push(newscope@),
            ..old(cdb)@.db
        }),
        r is Err ==> final(cdb)@.db == old(cdb)@.db && r == Err::<(), StoreError>(
            StoreError::Duplicate,
        ),
{
    let key = cache_key();
    cache::del(cdb, &key);
    proof {
        if old(cdb).serv.use_cache {
            lemma_cache_del_any(old(cdb)@.cache, old(cdb)@.db, scopes_key_v());
            crate::cache::lemma_del_entry(old(cdb)@.cache, scopes_key_v());
        }
    }
    cdb.events.push(Event::StoreWrite(key));
    proof {
        if old(cdb).serv.use_cache {
            assert(cdb.events.deep_view() =~= old(cdb)@.events.push(
                Ev::CacheDel(scopes_key_v()),
            ).push(Ev::StoreWrite(scopes_key_v())));
        } else {
            assert(cdb.events.deep_view() =~= old(cdb)@.events.push(
                Ev::StoreWrite(scopes_key_v()),
            ));
        }
    }
    let ghost mid = cdb@;
    let res = cdb.db.add_scope(newscope.as_str());
    proof {
        if res is Some {
            lemma_db_push_scope(mid.cache, mid.db, newscope@);
        }
    }
    match res {
        Some(_) => Ok(()),
        None => Err(StoreError::Duplicate),
    }
}

} // verus!
