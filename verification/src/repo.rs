use vstd::prelude::*;

use crate::cache::{
    Cache, CacheValV, EntryV, del_entry, find_entry, lemma_del_entry, lemma_find_entry_none,
    lemma_find_entry_push,
};
use crate::db::{DB, DbV, find_token, find_user};
use crate::state::ServerState;

verus! {

/// Mathematical model of one recorded cache/store operation.
pub enum Ev {
    CacheSet(Seq<char>),
    CacheDel(Seq<char>),
    StoreRead(Seq<char>),
    StoreWrite(Seq<char>),
}

/// One recorded cache/store operation, in issue order. The log makes the
/// access pattern of every call observable: which reads were served from the
/// cache, and that invalidation precedes every store write.
#[derive(Debug, PartialEq, Eq)]
pub enum Event {
    CacheSet(String),
    CacheDel(String),
    StoreRead(String),
    StoreWrite(String),
}

impl View for Event {
    type V = Ev;

    open spec fn view(&self) -> Ev {
        match self {
            Event::CacheSet(k) => Ev::CacheSet(k@),
            Event::CacheDel(k) => Ev::CacheDel(k@),
            Event::StoreRead(k) => Ev::StoreRead(k@),
            Event::StoreWrite(k) => Ev::StoreWrite(k@),
        }
    }
}

impl DeepView for Event {
    type V = Ev;

    open spec fn deep_view(&self) -> Ev {
        self.view()
    }
}

/// Cache key of a user record.
pub open spec fn user_key_v(name: Seq<char>) -> Seq<char> {
    "user_"@ + name
}

/// Cache key of a token record.
pub open spec fn token_key_v(id: Seq<char>) -> Seq<char> {
    "token_"@ + id
}

/// Cache key of the aggregate active-scope list.
pub open spec fn scopes_key_v() -> Seq<char> {
    "scopes"@
}

/// The three key families never collide.
pub proof fn lemma_key_shapes(n: Seq<char>, id: Seq<char>)
    ensures
        user_key_v(n) != token_key_v(id),
        user_key_v(n) != scopes_key_v(),
        token_key_v(id) != scopes_key_v(),
{
    reveal_strlit("user_");
    reveal_strlit("token_");
    reveal_strlit("scopes");
    assert(user_key_v(n)[0] == 'u');
    assert(token_key_v(id)[0] == 't');
    assert(scopes_key_v()[0] == 's');
}

/// Distinct user names give distinct cache keys.
pub proof fn lemma_user_key_injective(n1: Seq<char>, n2: Seq<char>)
    requires
        user_key_v(n1) == user_key_v(n2),
    ensures
        n1 == n2,
{
    reveal_strlit("user_");
    assert("user_"@.len() == 5);
    assert(("user_"@ + n1).len() == 5 + n1.len());
    assert(("user_"@ + n2).len() == 5 + n2.len());
    assert(n1.len() == n2.len());
    assert forall|i: int| 0 <= i < n1.len() implies n1[i] == n2[i] by {
        assert(user_key_v(n1)[5 + i] == n1[i]);
        assert(user_key_v(n2)[5 + i] == n2[i]);
    }
    assert(n1 =~= n2);
}

/// Distinct token identifiers give distinct cache keys.
pub proof fn lemma_token_key_injective(n1: Seq<char>, n2: Seq<char>)
    requires
        token_key_v(n1) == token_key_v(n2),
    ensures
        n1 == n2,
{
    reveal_strlit("token_");
    assert("token_"@.len() == 6);
    assert(("token_"@ + n1).len() == 6 + n1.len());
    assert(("token_"@ + n2).len() == 6 + n2.len());
    assert(n1.len() == n2.len());
    assert forall|i: int| 0 <= i < n1.len() implies n1[i] == n2[i] by {
        assert(token_key_v(n1)[6 + i] == n1[i]);
        assert(token_key_v(n2)[6 + i] == n2[i]);
    }
    assert(n1 =~= n2);
}

/// Every cached user record mirrors the store: right shape, right name, and
/// equal to the store row (users are never updated or deleted, so a cached
/// copy can never go stale).
pub open spec fn user_coherent(cache: Seq<EntryV>, db: DbV) -> bool {
    forall|n: Seq<char>|
        (#[trigger] find_entry(cache, user_key_v(n))) is Some ==> {
            let e = find_entry(cache, user_key_v(n))->Some_0;
            &&& e.val is User
            &&& e.val->User_0.name == n
            &&& find_user(db.users, n) == Some(e.val->User_0)
        }
}

/// Every cached token record has the right shape and, where the store still
/// holds the row, the same value. (A purged row may survive in the cache
/// until its TTL runs out: an accepted staleness window.)
pub open spec fn token_coherent(cache: Seq<EntryV>, db: DbV) -> bool {
    forall|id: Seq<char>|
        (#[trigger] find_entry(cache, token_key_v(id))) is Some ==> {
            let e = find_entry(cache, token_key_v(id))->Some_0;
            &&& e.val is Token
            &&& e.val->Token_0.token == id
            &&& (find_token(db.tokens, id) is Some ==> find_token(db.tokens, id) == Some(
                e.val->Token_0,
            ))
        }
}

/// The cached aggregate scope list, when present, is the store's list
/// (it is invalidated before every scope creation).
pub open spec fn scopes_coherent(cache: Seq<EntryV>, db: DbV) -> bool {
    find_entry(cache, scopes_key_v()) is Some ==> {
        let e = find_entry(cache, scopes_key_v())->Some_0;
        &&& e.val is Scopes
        &&& e.val->Scopes_0 == db.scopes
    }
}

/// Mathematical model of the repository: cache, store, configuration, and the
/// operation log.
pub struct CachedDbV {
    pub cache: Seq<EntryV>,
    pub db: DbV,
    pub serv: ServerState,
    pub events: Seq<Ev>,
}

impl CachedDbV {
    /// Well-formedness: unique keys everywhere, cache/store coherence, and an
    /// empty cache whenever caching is disabled.
    pub open spec fn wf(self) -> bool {
        &&& self.db.wf()
        &&& crate::cache::unique_entry_keys(self.cache)
        &&& user_coherent(self.cache, self.db)
        &&& token_coherent(self.cache, self.db)
        &&& scopes_coherent(self.cache, self.db)
        &&& !self.serv.use_cache ==> self.cache.len() == 0
    }
}

/// Cache, store and configuration bundled together, as every use case needs
/// all three; `events` records each cache/store operation in issue order.
pub struct CachedDb {
    pub cache: Cache,
    pub db: DB,
    pub serv: ServerState,
    pub events: Vec<Event>,
}

impl View for CachedDb {
    type V = CachedDbV;

    open spec fn view(&self) -> CachedDbV {
        CachedDbV {
            cache: self.cache@,
            db: self.db@,
            serv: self.serv,
            events: self.events.deep_view(),
        }
    }
}

/// Arithmetic margin needed to compute expiry instants at `now`.
pub open spec fn no_time_overflow(serv: ServerState, now: u64) -> bool {
    &&& now + serv.cache_lifetime <= u64::MAX
    &&& now + serv.token_lifetime <= u64::MAX
}

impl CachedDb {
    /// A fresh repository over a seeded store and an empty cache.
    pub fn new(serv: ServerState) -> (r: CachedDb)
        ensures
            r@.wf(),
            r@.serv == serv,
            r@.cache =~= Seq::<EntryV>::empty(),
            r@.events =~= Seq::<Ev>::empty(),
            r@.db.scopes =~= seq!["authadmin"@],
            r@.db.tokens =~= Seq::<crate::token::TokenV>::empty(),
            r@.db.users.len() == 1,
            r@.db.users[0].name == "admin"@,
            r@.db.users[0].enabled,
            r@.db.users[0].expiration == u64::MAX,
            r@.db.users[0].scopes =~= seq!["authadmin"@],
    {
        let r = CachedDb {
            cache: Cache::empty(),
            db: DB::new(),
            serv,
            events: Vec::new(),
        };
        proof {
            assert(r@.events =~= Seq::<Ev>::empty());
        }
        r
    }
}

/// Inserting a user entry that mirrors a store row preserves coherence.
pub proof fn lemma_cache_set_user(
    c0: Seq<EntryV>,
    db: DbV,
    name: Seq<char>,
    u: crate::user::UserV,
    expires: u64,
)
    requires
        crate::cache::unique_entry_keys(c0),
        user_coherent(c0, db),
        token_coherent(c0, db),
        scopes_coherent(c0, db),
        u.name == name,
        find_user(db.users, name) == Some(u),
    ensures
        ({
            let c2 = del_entry(c0, user_key_v(name)).push(
                EntryV { key: user_key_v(name), val: CacheValV::User(u), expires },
            );
            &&& crate::cache::unique_entry_keys(c2)
            &&& user_coherent(c2, db)
            &&& token_coherent(c2, db)
            &&& scopes_coherent(c2, db)
        }),
{
    let key = user_key_v(name);
    let e = EntryV { key, val: CacheValV::User(u), expires };
    lemma_del_entry(c0, key);
    let c1 = del_entry(c0, key);
    let c2 = c1.push(e);
    lemma_find_entry_none(c1, key);
    assert forall|i: int, j: int| 0 <= i < j < c2.len() implies c2[i].key != c2[j].key by {
        if j < c2.len() - 1 {
            assert(c1[i] == c2[i]);
            assert(c1[j] == c2[j]);
        } else {
            assert(c1[i] == c2[i]);
        }
    }
    assert forall|n: Seq<char>| (#[trigger] find_entry(c2, user_key_v(n))) is Some implies {
        let ee = find_entry(c2, user_key_v(n))->Some_0;
        &&& ee.val is User
        &&& ee.val->User_0.name == n
        &&& find_user(db.users, n) == Some(ee.val->User_0)
    } by {
        lemma_find_entry_push(c1, e, user_key_v(n));
        if user_key_v(n) == key {
            lemma_user_key_injective(n, name);
            assert(find_entry(c2, user_key_v(n)) == Some(e));
        } else {
            assert(find_entry(c2, user_key_v(n)) == find_entry(c0, user_key_v(n)));
        }
    }
    assert forall|id: Seq<char>| (#[trigger] find_entry(c2, token_key_v(id))) is Some implies {
        let ee = find_entry(c2, token_key_v(id))->Some_0;
        &&& ee.val is Token
        &&& ee.val->Token_0.token == id
        &&& (find_token(db.tokens, id) is Some ==> find_token(db.tokens, id) == Some(
            ee.val->Token_0,
        ))
    } by {
        lemma_key_shapes(name, id);
        lemma_find_entry_push(c1, e, token_key_v(id));
        assert(find_entry(c2, token_key_v(id)) == find_entry(c0, token_key_v(id)));
    }
    lemma_key_shapes(name, name);
    lemma_find_entry_push(c1, e, scopes_key_v());
    assert(find_entry(c2, scopes_key_v()) == find_entry(c0, scopes_key_v()));
}

/// Inserting a token entry that mirrors a store row preserves coherence.
pub proof fn lemma_cache_set_token(
    c0: Seq<EntryV>,
    db: DbV,
    id: Seq<char>,
    t: crate::token::TokenV,
    expires: u64,
)
    requires
        crate::cache::unique_entry_keys(c0),
        user_coherent(c0, db),
        token_coherent(c0, db),
        scopes_coherent(c0, db),
        t.token == id,
        find_token(db.tokens, id) is Some ==> find_token(db.tokens, id) == Some(t),
    ensures
        ({
            let c2 = del_entry(c0, token_key_v(id)).push(
                EntryV { key: token_key_v(id), val: CacheValV::Token(t), expires },
            );
            &&& crate::cache::unique_entry_keys(c2)
            &&& user_coherent(c2, db)
            &&& token_coherent(c2, db)
            &&& scopes_coherent(c2, db)
        }),
{
    let key = token_key_v(id);
    let e = EntryV { key, val: CacheValV::Token(t), expires };
    lemma_del_entry(c0, key);
    let c1 = del_entry(c0, key);
    let c2 = c1.push(e);
    lemma_find_entry_none(c1, key);
    assert forall|i: int, j: int| 0 <= i < j < c2.len() implies c2[i].key != c2[j].key by {
        if j < c2.len() - 1 {
            assert(c1[i] == c2[i]);
            assert(c1[j] == c2[j]);
        } else {
            assert(c1[i] == c2[i]);
        }
    }
    assert forall|n: Seq<char>| (#[trigger] find_entry(c2, user_key_v(n))) is Some implies {
        let ee = find_entry(c2, user_key_v(n))->Some_0;
        &&& ee.val is User
        &&& ee.val->User_0.name == n
        &&& find_user(db.users, n) == Some(ee.val->User_0)
    } by {
        lemma_key_shapes(n, id);
        lemma_find_entry_push(c1, e, user_key_v(n));
        assert(find_entry(c2, user_key_v(n)) == find_entry(c0, user_key_v(n)));
    }
    assert forall|i: Seq<char>| (#[trigger] find_entry(c2, token_key_v(i))) is Some implies {
        let ee = find_entry(c2, token_key_v(i))->Some_0;
        &&& ee.val is Token
        &&& ee.val->Token_0.token == i
        &&& (find_token(db.tokens, i) is Some ==> find_token(db.tokens, i) == Some(
            ee.val->Token_0,
        ))
    } by {
        lemma_find_entry_push(c1, e, token_key_v(i));
        if token_key_v(i) == key {
            lemma_token_key_injective(i, id);
            assert(find_entry(c2, token_key_v(i)) == Some(e));
        } else {
            assert(find_entry(c2, token_key_v(i)) == find_entry(c0, token_key_v(i)));
        }
    }
    lemma_key_shapes(id, id);
    lemma_find_entry_push(c1, e, scopes_key_v());
    assert(find_entry(c2, scopes_key_v()) == find_entry(c0, scopes_key_v()));
}

/// Inserting the store's own scope list preserves coherence.
pub proof fn lemma_cache_set_scopes(c0: Seq<EntryV>, db: DbV, sc: Seq<Seq<char>>, expires: u64)
    requires
        crate::cache::unique_entry_keys(c0),
        user_coherent(c0, db),
        token_coherent(c0, db),
        scopes_coherent(c0, db),
        sc == db.scopes,
    ensures
        ({
            let c2 = del_entry(c0, scopes_key_v()).push(
                EntryV { key: scopes_key_v(), val: CacheValV::Scopes(sc), expires },
            );
            &&& crate::cache::unique_entry_keys(c2)
            &&& user_coherent(c2, db)
            &&& token_coherent(c2, db)
            &&& scopes_coherent(c2, db)
        }),
{
    let key = scopes_key_v();
    let e = EntryV { key, val: CacheValV::Scopes(sc), expires };
    lemma_del_entry(c0, key);
    let c1 = del_entry(c0, key);
    let c2 = c1.push(e);
    lemma_find_entry_none(c1, key);
    assert forall|i: int, j: int| 0 <= i < j < c2.len() implies c2[i].key != c2[j].key by {
        if j < c2.len() - 1 {
            assert(c1[i] == c2[i]);
            assert(c1[j] == c2[j]);
        } else {
            assert(c1[i] == c2[i]);
        }
    }
    assert forall|n: Seq<char>| (#[trigger] find_entry(c2, user_key_v(n))) is Some implies {
        let ee = find_entry(c2, user_key_v(n))->Some_0;
        &&& ee.val is User
        &&& ee.val->User_0.name == n
        &&& find_user(db.users, n) == Some(ee.val->User_0)
    } by {
        lemma_key_shapes(n, n);
        lemma_find_entry_push(c1, e, user_key_v(n));
        assert(find_entry(c2, user_key_v(n)) == find_entry(c0, user_key_v(n)));
    }
    assert forall|i: Seq<char>| (#[trigger] find_entry(c2, token_key_v(i))) is Some implies {
        let ee = find_entry(c2, token_key_v(i))->Some_0;
        &&& ee.val is Token
        &&& ee.val->Token_0.token == i
        &&& (find_token(db.tokens, i) is Some ==> find_token(db.tokens, i) == Some(
            ee.val->Token_0,
        ))
    } by {
        lemma_key_shapes(i, i);
        lemma_find_entry_push(c1, e, token_key_v(i));
        assert(find_entry(c2, token_key_v(i)) == find_entry(c0, token_key_v(i)));
    }
    lemma_find_entry_push(c1, e, scopes_key_v());
    assert(find_entry(c2, scopes_key_v()) == Some(e));
}

/// Inserting a user row whose cache entry is absent preserves coherence.
pub proof fn lemma_db_push_user(cache: Seq<EntryV>, db: DbV, u: crate::user::UserV)
    requires
        user_coherent(cache, db),
        token_coherent(cache, db),
        scopes_coherent(cache, db),
        find_entry(cache, user_key_v(u.name)) is None,
    ensures
        ({
            let db2 = DbV { users: db.users.push(u), ..db };
            &&& user_coherent(cache, db2)
            &&& token_coherent(cache, db2)
            &&& scopes_coherent(cache, db2)
        }),
{
    let db2 = DbV { users: db.users.push(u), ..db };
    assert forall|n: Seq<char>| (#[trigger] find_entry(cache, user_key_v(n))) is Some implies {
        let ee = find_entry(cache, user_key_v(n))->Some_0;
        &&& ee.val is User
        &&& ee.val->User_0.name == n
        &&& find_user(db2.users, n) == Some(ee.val->User_0)
    } by {
        crate::db::lemma_find_user_push(db.users, u, n);
        if n == u.name {
            assert(false);
        }
    }
}

/// Inserting a token row that neither the store nor the cache knows
/// preserves coherence.
pub proof fn lemma_db_push_token(cache: Seq<EntryV>, db: DbV, t: crate::token::TokenV)
    requires
        user_coherent(cache, db),
        token_coherent(cache, db),
        scopes_coherent(cache, db),
        find_entry(cache, token_key_v(t.token)) is None,
        find_token(db.tokens, t.token) is None,
    ensures
        ({
            let db2 = DbV { tokens: db.tokens.push(t), ..db };
            &&& user_coherent(cache, db2)
            &&& token_coherent(cache, db2)
            &&& scopes_coherent(cache, db2)
        }),
{
    let db2 = DbV { tokens: db.tokens.push(t), ..db };
    assert forall|id: Seq<char>| (#[trigger] find_entry(cache, token_key_v(id))) is Some implies {
        let ee = find_entry(cache, token_key_v(id))->Some_0;
        &&& ee.val is Token
        &&& ee.val->Token_0.token == id
        &&& (find_token(db2.tokens, id) is Some ==> find_token(db2.tokens, id) == Some(
            ee.val->Token_0,
        ))
    } by {
        crate::db::lemma_find_token_push(db.tokens, t, id);
        if id == t.token {
            assert(false);
        }
    }
}

/// Registering a scope after the aggregate list was invalidated preserves
/// coherence.
pub proof fn lemma_db_push_scope(cache: Seq<EntryV>, db: DbV, sc: Seq<char>)
    requires
        user_coherent(cache, db),
        token_coherent(cache, db),
        scopes_coherent(cache, db),
        find_entry(cache, scopes_key_v()) is None,
    ensures
        ({
            let db2 = DbV { scopes: db.scopes.push(sc), ..db };
            &&& user_coherent(cache, db2)
            &&& token_coherent(cache, db2)
            &&& scopes_coherent(cache, db2)
        }),
{
}

/// Purging expired tokens preserves coherence: a cached token whose row
/// survives still mirrors it.
pub proof fn lemma_db_purge_tokens(cache: Seq<EntryV>, db: DbV, now: u64)
    requires
        db.wf(),
        user_coherent(cache, db),
        token_coherent(cache, db),
        scopes_coherent(cache, db),
    ensures
        ({
            let db2 = DbV { tokens: crate::db::purge_spec(db.tokens, now), ..db };
            &&& user_coherent(cache, db2)
            &&& token_coherent(cache, db2)
            &&& scopes_coherent(cache, db2)
        }),
{
    let db2 = DbV { tokens: crate::db::purge_spec(db.tokens, now), ..db };
    assert forall|id: Seq<char>| (#[trigger] find_entry(cache, token_key_v(id))) is Some implies {
        let ee = find_entry(cache, token_key_v(id))->Some_0;
        &&& ee.val is Token
        &&& ee.val->Token_0.token == id
        &&& (find_token(db2.tokens, id) is Some ==> find_token(db2.tokens, id) == Some(
            ee.val->Token_0,
        ))
    } by {
        crate::db::lemma_purge_find(db.tokens, now, id);
    }
}

/// Sweeping expired cache entries preserves coherence: a surviving entry
/// reads exactly as before.
pub proof fn lemma_cache_sweep_coherent(c0: Seq<EntryV>, db: DbV, now: u64)
    requires
        crate::cache::unique_entry_keys(c0),
        user_coherent(c0, db),
        token_coherent(c0, db),
        scopes_coherent(c0, db),
    ensures
        ({
            let c2 = Cache::sweep_spec(c0, now);
            &&& crate::cache::unique_entry_keys(c2)
            &&& user_coherent(c2, db)
            &&& token_coherent(c2, db)
            &&& scopes_coherent(c2, db)
            &&& c2.len() <= c0.len()
        }),
{
    let c2 = Cache::sweep_spec(c0, now);
    crate::cache::lemma_sweep_contains(c0, now);
    assert forall|n: Seq<char>| (#[trigger] find_entry(c2, user_key_v(n))) is Some implies {
        let ee = find_entry(c2, user_key_v(n))->Some_0;
        &&& ee.val is User
        &&& ee.val->User_0.name == n
        &&& find_user(db.users, n) == Some(ee.val->User_0)
    } by {
        crate::cache::lemma_sweep_find(c0, now, user_key_v(n));
    }
    assert forall|id: Seq<char>| (#[trigger] find_entry(c2, token_key_v(id))) is Some implies {
        let ee = find_entry(c2, token_key_v(id))->Some_0;
        &&& ee.val is Token
        &&& ee.val->Token_0.token == id
        &&& (find_token(db.tokens, id) is Some ==> find_token(db.tokens, id) == Some(
            ee.val->Token_0,
        ))
    } by {
        crate::cache::lemma_sweep_find(c0, now, token_key_v(id));
    }
    crate::cache::lemma_sweep_find(c0, now, scopes_key_v());
}

/// Deleting any key preserves coherence: each key family either reads as
/// before or misses.
pub proof fn lemma_cache_del_any(c0: Seq<EntryV>, db: DbV, key: Seq<char>)
    requires
        crate::cache::unique_entry_keys(c0),
        user_coherent(c0, db),
        token_coherent(c0, db),
        scopes_coherent(c0, db),
    ensures
        crate::cache::unique_entry_keys(del_entry(c0, key)),
        user_coherent(del_entry(c0, key), db),
        token_coherent(del_entry(c0, key), db),
        scopes_coherent(del_entry(c0, key), db),
        del_entry(c0, key).len() <= c0.len(),
{
    lemma_del_entry(c0, key);
    let c1 = del_entry(c0, key);
    assert forall|n: Seq<char>| (#[trigger] find_entry(c1, user_key_v(n))) is Some implies {
        let ee = find_entry(c1, user_key_v(n))->Some_0;
        &&& ee.val is User
        &&& ee.val->User_0.name == n
        &&& find_user(db.users, n) == Some(ee.val->User_0)
    } by {
        if user_key_v(n) != key {
            assert(find_entry(c1, user_key_v(n)) == find_entry(c0, user_key_v(n)));
        }
    }
    assert forall|i: Seq<char>| (#[trigger] find_entry(c1, token_key_v(i))) is Some implies {
        let ee = find_entry(c1, token_key_v(i))->Some_0;
        &&& ee.val is Token
        &&& ee.val->Token_0.token == i
        &&& (find_token(db.tokens, i) is Some ==> find_token(db.tokens, i) == Some(
            ee.val->Token_0,
        ))
    } by {
        if token_key_v(i) != key {
            assert(find_entry(c1, token_key_v(i)) == find_entry(c0, token_key_v(i)));
        }
    }
    if scopes_key_v() != key {
        assert(find_entry(c1, scopes_key_v()) == find_entry(c0, scopes_key_v()));
    }
}

} // verus!
