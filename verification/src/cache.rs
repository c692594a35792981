use vstd::prelude::*;

use crate::repo::{CachedDb, CachedDbV, Ev, Event};
use crate::token::{Token, TokenV};
use crate::user::{User, UserV};

verus! {

/// Mathematical model of a cached value.
pub enum CacheValV {
    User(UserV),
    Token(TokenV),
    Scopes(Seq<Seq<char>>),
}

/// A value held by the cache layer: one entity, or the aggregate scope list.
pub enum CacheVal {
    User(User),
    Token(Token),
    Scopes(Vec<String>),
}

impl View for CacheVal {
    type V = CacheValV;

    open spec fn view(&self) -> CacheValV {
        match self {
            CacheVal::User(u) => CacheValV::User(u@),
            CacheVal::Token(t) => CacheValV::Token(t@),
            CacheVal::Scopes(s) => CacheValV::Scopes(s.deep_view()),
        }
    }
}

impl DeepView for CacheVal {
    type V = CacheValV;

    open spec fn deep_view(&self) -> CacheValV {
        self.view()
    }
}

impl Clone for CacheVal {
    fn clone(&self) -> (res: Self)
        ensures
            res@ == self@,
    {
        match self {
            CacheVal::User(u) => CacheVal::User(u.clone()),
            CacheVal::Token(t) => CacheVal::Token(t.clone()),
            CacheVal::Scopes(s) => {
                let c = s.clone();
                proof {
                    assert(c.deep_view() =~= s.deep_view());
                }
                CacheVal::Scopes(c)
            },
        }
    }
}

/// Mathematical model of one cache entry.
pub struct EntryV {
    pub key: Seq<char>,
    pub val: CacheValV,
    pub expires: u64,
}

/// One key/value cache entry with its absolute expiry instant.
pub struct CacheEntry {
    pub key: String,
    pub val: CacheVal,
    pub expires: u64,
}

impl View for CacheEntry {
    type V = EntryV;

    open spec fn view(&self) -> EntryV {
        EntryV { key: self.key@, val: self.val@, expires: self.expires }
    }
}

impl DeepView for CacheEntry {
    type V = EntryV;

    open spec fn deep_view(&self) -> EntryV {
        self.view()
    }
}

/// First entry under the key, if any.
pub open spec fn find_entry(s: Seq<EntryV>, key: Seq<char>) -> Option<EntryV>
    decreases s.len(),
{
    if s.len() == 0 {
        None
    } else if s[0].key == key {
        Some(s[0])
    } else {
        find_entry(s.drop_first(), key)
    }
}

/// The entries left after deleting the key (first occurrence).
pub open spec fn del_entry(s: Seq<EntryV>, key: Seq<char>) -> Seq<EntryV>
    decreases s.len(),
{
    if s.len() == 0 {
        s
    } else if s[0].key == key {
        s.drop_first()
    } else {
        seq![s[0]] + del_entry(s.drop_first(), key)
    }
}

pub open spec fn unique_entry_keys(s: Seq<EntryV>) -> bool {
    forall|i: int, j: int| 0 <= i < j < s.len() ==> s[i].key != s[j].key
}

/// `find_entry` misses exactly when no entry carries the key.
pub proof fn lemma_find_entry_none(s: Seq<EntryV>, key: Seq<char>)
    ensures
        find_entry(s, key) is None <==> (forall|i: int| 0 <= i < s.len() ==> s[i].key != key),
    decreases s.len(),
{
    if s.len() > 0 {
        let d = s.drop_first();
        lemma_find_entry_none(d, key);
        if find_entry(s, key) is None {
            assert forall|i: int| 0 <= i < s.len() implies s[i].key != key by {
                if i > 0 {
                    assert(d[i - 1] == s[i]);
                }
            }
        }
        if forall|i: int| 0 <= i < s.len() ==> s[i].key != key {
            assert forall|i: int| 0 <= i < d.len() implies d[i].key != key by {
                assert(d[i] == s[i + 1]);
                assert(s[i + 1].key != key);
            }
        }
    }
}

/// Appending an entry only changes lookups that previously missed its key.
pub proof fn lemma_find_entry_push(s: Seq<EntryV>, e: EntryV, key: Seq<char>)
    ensures
        find_entry(s.push(e), key) == if find_entry(s, key) is Some {
            find_entry(s, key)
        } else if e.key == key {
            Some(e)
        } else {
            None::<EntryV>
        },
    decreases s.len(),
{
    if s.len() == 0 {
        assert(s.push(e).drop_first() =~= Seq::<EntryV>::empty());
    } else {
        assert(s.push(e).drop_first() =~= s.drop_first().push(e));
        lemma_find_entry_push(s.drop_first(), e, key);
    }
}

/// Under unique keys, deleting a key removes exactly that entry: the key is
/// gone, every other key reads as before, and uniqueness is kept.
pub proof fn lemma_del_entry(s: Seq<EntryV>, key: Seq<char>)
    requires
        unique_entry_keys(s),
    ensures
        unique_entry_keys(del_entry(s, key)),
        find_entry(del_entry(s, key), key) is None,
        forall|k: Seq<char>|
            k != key ==> #[trigger] find_entry(del_entry(s, key), k) == find_entry(s, k),
        del_entry(s, key).len() <= s.len(),
        forall|j: int| 0 <= j < del_entry(s, key).len() ==> s.contains(#[trigger] del_entry(s, key)[j]),
    decreases s.len(),
{
    if s.len() == 0 {
    } else {
        let d = s.drop_first();
        assert forall|i: int, j: int| 0 <= i < j < d.len() implies d[i].key != d[j].key by {
            assert(d[i] == s[i + 1]);
            assert(d[j] == s[j + 1]);
        }
        assert(forall|j: int| 0 <= j < d.len() ==> s.contains(#[trigger] d[j]));
        if s[0].key == key {
            let r = d;
            lemma_find_entry_none(r, key);
            assert forall|i: int| 0 <= i < r.len() implies r[i].key != key by {
                assert(r[i] == s[i + 1]);
            }
            assert forall|k: Seq<char>| k != key implies #[trigger] find_entry(r, k)
                == find_entry(s, k) by {}
        } else {
            lemma_del_entry(d, key);
            let dd = del_entry(d, key);
            let r = seq![s[0]] + dd;
            assert(del_entry(s, key) == r);
            assert(r[0] == s[0]);
            assert(r.drop_first() =~= dd);
            // every element of the result sits in s
            assert forall|j: int| 0 <= j < r.len() implies s.contains(r[j]) by {
                if j == 0 {
                    assert(s[0] == r[0]);
                    assert(s.contains(s[0]));
                } else {
                    assert(d.contains(dd[j - 1]));
                    let m = choose|m: int| 0 <= m < d.len() && d[m] == dd[j - 1];
                    assert(s[m + 1] == dd[j - 1]);
                }
            }
            // uniqueness of the result
            assert forall|i: int, j: int| 0 <= i < j < r.len() implies r[i].key != r[j].key by {
                if i == 0 {
                    assert(d.contains(dd[j - 1]));
                    let m = choose|m: int| 0 <= m < d.len() && d[m] == dd[j - 1];
                    assert(s[m + 1] == dd[j - 1]);
                    assert(s[0].key != s[m + 1].key);
                } else {
                    assert(dd[i - 1] == r[i]);
                    assert(dd[j - 1] == r[j]);
                }
            }
            // lookups on the result
            lemma_find_entry_none(dd, key);
            assert(find_entry(r, key) is None);
            assert forall|k: Seq<char>| k != key implies #[trigger] find_entry(r, k)
                == find_entry(s, k) by {
                if s[0].key == k {
                } else {
                    assert(find_entry(r, k) == find_entry(dd, k));
                    assert(find_entry(s, k) == find_entry(d, k));
                }
            }
        }
    }
}

/// Deleting an absent key leaves the entries untouched.
pub proof fn lemma_del_entry_absent(s: Seq<EntryV>, key: Seq<char>)
    requires
        forall|i: int| 0 <= i < s.len() ==> s[i].key != key,
    ensures
        del_entry(s, key) == s,
    decreases s.len(),
{
    if s.len() > 0 {
        let d = s.drop_first();
        assert forall|i: int| 0 <= i < d.len() implies d[i].key != key by {
            assert(d[i] == s[i + 1]);
        }
        lemma_del_entry_absent(d, key);
        assert(seq![s[0]] + d =~= s);
    }
}

/// Deleting the first occurrence found at index `i` is removing index `i`.
pub proof fn lemma_del_entry_index(s: Seq<EntryV>, key: Seq<char>, i: int)
    requires
        0 <= i < s.len(),
        forall|k: int| 0 <= k < i ==> s[k].key != key,
        s[i].key == key,
    ensures
        del_entry(s, key) =~= s.remove(i),
    decreases i,
{
    if i == 0 {
        assert(del_entry(s, key) == s.drop_first());
        assert(s.drop_first() =~= s.remove(0));
    } else {
        let d = s.drop_first();
        assert forall|k: int| 0 <= k < i - 1 implies d[k].key != key by {
            assert(d[k] == s[k + 1]);
        }
        assert(d[i - 1] == s[i]);
        lemma_del_entry_index(d, key, i - 1);
        assert(del_entry(s, key) == seq![s[0]] + del_entry(d, key));
        assert(seq![s[0]] + d.remove(i - 1) =~= s.remove(i));
    }
}

/// A cached value is visible only until its expiry instant.
pub open spec fn spec_lookup(s: Seq<EntryV>, key: Seq<char>, now: u64) -> Option<CacheValV> {
    match find_entry(s, key) {
        Some(e) => if now < e.expires {
            Some(e.val)
        } else {
            None
        },
        None => None,
    }
}

/// Best-effort TTL key/value cache, one entry per key.
pub struct Cache {
    pub entries: Vec<CacheEntry>,
}

impl View for Cache {
    type V = Seq<EntryV>;

    open spec fn view(&self) -> Seq<EntryV> {
        self.entries.deep_view()
    }
}

impl Cache {
    pub open spec fn wf(&self) -> bool {
        unique_entry_keys(self@)
    }

    pub fn empty() -> (r: Cache)
        ensures
            r@ =~= Seq::<EntryV>::empty(),
            r.wf(),
    {
        let r = Cache { entries: Vec::new() };
        proof {
            assert(r@ =~= Seq::<EntryV>::empty());
        }
        r
    }

    /// Read a key; an entry at or past its expiry reads as a miss.
    pub fn lookup(&self, key: &String, now: u64) -> (r: Option<CacheVal>)
        ensures
            r.deep_view() == spec_lookup(self@, key@, now),
    {
        let ghost s = self@;
        proof {
            assert(s.skip(0) =~= s);
        }
        let mut i: usize = 0;
        while i < self.entries.len()
            invariant
                0 <= i <= self.entries@.len(),
                s == self@,
                s.len() == self.entries@.len(),
                find_entry(s, key@) == find_entry(s.skip(i as int), key@),
            decreases self.entries@.len() - i,
        {
            proof {
                assert(s[i as int] == self.entries@[i as int]@);
                assert(s.skip(i as int)[0] == s[i as int]);
            }
            if self.entries[i].key == *key {
                if now < self.entries[i].expires {
                    return Some(self.entries[i].val.clone());
                } else {
                    return None;
                }
            }
            proof {
                assert(s.skip(i as int).drop_first() =~= s.skip(i as int + 1));
            }
            i = i + 1;
        }
        proof {
            assert(s.skip(i as int) =~= Seq::<EntryV>::empty());
        }
        None
    }

    /// Delete a key; absent keys are left alone.
    pub fn del(&mut self, key: &String)
        ensures
            final(self)@ == del_entry(old(self)@, key@),
            old(self).wf() ==> final(self).wf(),
    {
        let ghost s = self@;
        let mut i: usize = 0;
        while i < self.entries.len()
            invariant
                0 <= i <= self.entries@.len(),
                *self == *old(self),
                s == self@,
                s.len() == self.entries@.len(),
                forall|k: int| 0 <= k < i ==> s[k].key != key@,
            decreases self.entries@.len() - i,
        {
            proof {
                assert(s[i as int] == self.entries@[i as int]@);
            }
            if self.entries[i].key == *key {
                self.entries.remove(i);
                proof {
                    let dv = self.entries.deep_view();
                    s.remove_ensures(i as int);
                    assert(dv =~= s.remove(i as int)) by {
                        assert(forall|k: int|
                            0 <= k < dv.len() ==> dv[k] == self.entries@[k]@);
                    }
                    lemma_del_entry_index(s, key@, i as int);
                    if old(self).wf() {
                        lemma_del_entry(s, key@);
                    }
                }
                return ;
            }
            i = i + 1;
        }
        proof {
            lemma_del_entry_absent(s, key@);
        }
    }

    /// Write a key: the old entry (if any) is deleted, then the new one
    /// appended with its expiry instant.
    pub fn set(&mut self, key: String, val: CacheVal, expires: u64)
        ensures
            final(self)@ == del_entry(old(self)@, key@).push(
                EntryV { key: key@, val: val@, expires },
            ),
            old(self).wf() ==> final(self).wf(),
    {
        let ghost kv = key@;
        let ghost vv = val@;
        self.del(&key);
        let ghost mid = self@;
        self.entries.push(CacheEntry { key, val, expires });
        proof {
            assert(self.entries.deep_view() =~= mid.push(EntryV { key: kv, val: vv, expires }));
            if old(self).wf() {
                lemma_del_entry(old(self)@, kv);
                lemma_find_entry_none(mid, kv);
                let r = mid.push(EntryV { key: kv, val: vv, expires });
                assert forall|i: int, j: int| 0 <= i < j < r.len() implies r[i].key
                    != r[j].key by {
                    if j < r.len() - 1 {
                        assert(mid[i] == r[i]);
                        assert(mid[j] == r[j]);
                    } else {
                        assert(mid[i] == r[i]);
                    }
                }
            }
        }
    }

    /// The entries that survive a sweep at instant `now`: those still live.
    pub open spec fn sweep_spec(s: Seq<EntryV>, now: u64) -> Seq<EntryV>
        decreases s.len(),
    {
        if s.len() == 0 {
            s
        } else if s[0].expires > now {
            seq![s[0]] + Self::sweep_spec(s.drop_first(), now)
        } else {
            Self::sweep_spec(s.drop_first(), now)
        }
    }

    /// Drop every entry at or past its expiry instant.
    pub fn sweep(&mut self, now: u64)
        ensures
            final(self)@ == Self::sweep_spec(old(self)@, now),
    {
        let ghost s = self@;
        proof {
            assert(s.skip(0) =~= s);
            assert(Seq::<EntryV>::empty() + Self::sweep_spec(s, now) =~= Self::sweep_spec(s, now));
        }
        let mut kept: Vec<CacheEntry> = Vec::new();
        let mut i: usize = 0;
        while i < self.entries.len()
            invariant
                0 <= i <= self.entries@.len(),
                s == self@,
                s.len() == self.entries@.len(),
                Self::sweep_spec(s, now) == kept.deep_view() + Self::sweep_spec(
                    s.skip(i as int),
                    now,
                ),
            decreases self.entries@.len() - i,
        {
            proof {
                assert(s[i as int] == self.entries@[i as int]@);
                assert(s.skip(i as int)[0] == s[i as int]);
                assert(s.skip(i as int).drop_first() =~= s.skip(i as int + 1));
            }
            let ghost kept_pre = kept.deep_view();
            if self.entries[i].expires > now {
                let e = CacheEntry {
                    key: self.entries[i].key.clone(),
                    val: self.entries[i].val.clone(),
                    expires: self.entries[i].expires,
                };
                kept.push(e);
                proof {
                    assert(kept.deep_view() =~= kept_pre.push(s[i as int]));
                    assert(kept_pre + (seq![s[i as int]] + Self::sweep_spec(
                        s.skip(i as int + 1),
                        now,
                    )) =~= kept_pre.push(s[i as int]) + Self::sweep_spec(s.skip(i as int + 1), now));
                }
            }
            i = i + 1;
        }
        proof {
            assert(s.skip(i as int) =~= Seq::<EntryV>::empty());
            assert(kept.deep_view() + Self::sweep_spec(s.skip(i as int), now) =~= kept.deep_view());
        }
        self.entries = kept;
    }
}

/// After a sweep, a key either reads as before or is gone; uniqueness is kept.
pub proof fn lemma_sweep_find(s: Seq<EntryV>, now: u64, key: Seq<char>)
    requires
        unique_entry_keys(s),
    ensures
        unique_entry_keys(Cache::sweep_spec(s, now)),
        find_entry(Cache::sweep_spec(s, now), key) is Some ==> find_entry(
            Cache::sweep_spec(s, now),
            key,
        ) == find_entry(s, key),
    decreases s.len(),
{
    if s.len() > 0 {
        let d = s.drop_first();
        assert forall|i: int, j: int| 0 <= i < j < d.len() implies d[i].key != d[j].key by {
            assert(d[i] == s[i + 1]);
            assert(d[j] == s[j + 1]);
        }
        lemma_sweep_find(d, now, key);
        lemma_sweep_contains(d, now);
        let sd = Cache::sweep_spec(d, now);
        if s[0].expires > now {
            let r = seq![s[0]] + sd;
            assert(r[0] == s[0]);
            assert(r.drop_first() =~= sd);
            assert forall|i: int, j: int| 0 <= i < j < r.len() implies r[i].key != r[j].key by {
                if i == 0 {
                    assert(d.contains(sd[j - 1]));
                    let m = choose|m: int| 0 <= m < d.len() && d[m] == sd[j - 1];
                    assert(s[m + 1] == sd[j - 1]);
                } else {
                    assert(sd[i - 1] == r[i]);
                    assert(sd[j - 1] == r[j]);
                }
            }
            if find_entry(r, key) is Some {
                if s[0].key == key {
                } else {
                    assert(find_entry(r, key) == find_entry(sd, key));
                    assert(find_entry(s, key) == find_entry(d, key));
                }
            }
        } else {
            if find_entry(sd, key) is Some {
                let e = find_entry(sd, key)->Some_0;
                lemma_find_entry_some_member(sd, key);
                let p = choose|p: int| 0 <= p < sd.len() && sd[p] == e;
                assert(d.contains(sd[p]));
                let m = choose|m: int| 0 <= m < d.len() && d[m] == e;
                assert(s[m + 1] == e);
                if s[0].key == key {
                    // the head carries the key, so no survivor may carry it too
                    assert(s[0].key != s[m + 1].key);
                    assert(false);
                }
            }
        }
    }
}

/// Every survivor of a sweep was among the entries before it.
pub proof fn lemma_sweep_contains(s: Seq<EntryV>, now: u64)
    ensures
        forall|j: int|
            0 <= j < Cache::sweep_spec(s, now).len() ==> s.contains(
                #[trigger] Cache::sweep_spec(s, now)[j],
            ),
        Cache::sweep_spec(s, now).len() <= s.len(),
    decreases s.len(),
{
    if s.len() > 0 {
        let d = s.drop_first();
        lemma_sweep_contains(d, now);
        let sd = Cache::sweep_spec(d, now);
        assert forall|j: int| 0 <= j < sd.len() implies s.contains(sd[j]) by {
            assert(d.contains(sd[j]));
            let m = choose|m: int| 0 <= m < d.len() && d[m] == sd[j];
            assert(s[m + 1] == sd[j]);
        }
        if s[0].expires > now {
            let r = seq![s[0]] + sd;
            assert(r[0] == s[0]);
            assert(s.contains(s[0]));
            assert(forall|j: int| 1 <= j < r.len() ==> r[j] == sd[j - 1]);
        }
    }
}

/// Fetch a key from the cache layer; `None` on a miss, on an entry past its
/// TTL, or when caching is disabled. Never touches the store.
pub fn get(cdb: &CachedDb, key: &String, now: u64) -> (r: Option<CacheVal>)
    ensures
        r.deep_view() == if cdb.serv.use_cache {
            spec_lookup(cdb@.cache, key@, now)
        } else {
            None::<CacheValV>
        },
{
    if !cdb.serv.use_cache {
        return None;
    }
    cdb.cache.lookup(key, now)
}

/// Write a key to the cache layer with the configured TTL, recording the
/// operation; a no-op when caching is disabled.
pub fn put(cdb: &mut CachedDb, key: &String, x: CacheVal, now: u64) -> (r: Option<()>)
    requires
        old(cdb).serv.use_cache ==> now + old(cdb).serv.cache_lifetime <= u64::MAX,
    ensures
        !old(cdb).serv.use_cache ==> r is None && *final(cdb) == *old(cdb),
        old(cdb).serv.use_cache ==> r is Some && final(cdb)@ == (CachedDbV {
            cache: del_entry(old(cdb)@.cache, key@).push(
                EntryV {
                    key: key@,
                    val: x@,
                    expires: (now + old(cdb).serv.cache_lifetime as u64) as u64,
                },
            ),
            events: old(cdb)@.events.push(Ev::CacheSet(key@)),
            ..old(cdb)@
        }),
{
    if !cdb.serv.use_cache {
        return None;
    }
    let expires = now + (cdb.serv.cache_lifetime as u64);
    cdb.cache.set(key.clone(), x, expires);
    cdb.events.push(Event::CacheSet(key.clone()));
    proof {
        assert(cdb.events.deep_view() =~= old(cdb)@.events.push(Ev::CacheSet(key@)));
    }
    Some(())
}

/// Delete a key from the cache layer, recording the operation; a no-op when
/// caching is disabled.
pub fn del(cdb: &mut CachedDb, key: &String) -> (r: Option<()>)
    ensures
        !old(cdb).serv.use_cache ==> r is None && *final(cdb) == *old(cdb),
        old(cdb).serv.use_cache ==> r is Some && final(cdb)@ == (CachedDbV {
            cache: del_entry(old(cdb)@.cache, key@),
            events: old(cdb)@.events.push(Ev::CacheDel(key@)),
            ..old(cdb)@
        }),
{
    if !cdb.serv.use_cache {
        return None;
    }
    cdb.cache.del(key);
    cdb.events.push(Event::CacheDel(key.clone()));
    proof {
        assert(cdb.events.deep_view() =~= old(cdb)@.events.push(Ev::CacheDel(key@)));
    }
    Some(())
}

/// Best-effort sweep of entries already past their TTL; a no-op when caching
/// is disabled.
pub fn clean(cdb: &mut CachedDb, now: u64) -> (r: Option<()>)
    ensures
        !old(cdb).serv.use_cache ==> r is None && *final(cdb) == *old(cdb),
        old(cdb).serv.use_cache ==> r is Some && final(cdb)@ == (CachedDbV {
            cache: Cache::sweep_spec(old(cdb)@.cache, now),
            ..old(cdb)@
        }),
{
    if !cdb.serv.use_cache {
        return None;
    }
    cdb.cache.sweep(now);
    Some(())
}

/// A found entry is a member of the entries.
pub proof fn lemma_find_entry_some_member(s: Seq<EntryV>, key: Seq<char>)
    requires
        find_entry(s, key) is Some,
    ensures
        find_entry(s, key)->Some_0.key == key,
        s.contains(find_entry(s, key)->Some_0),
    decreases s.len(),
{
    if s.len() > 0 && s[0].key != key {
        let d = s.drop_first();
        lemma_find_entry_some_member(d, key);
        let m = choose|m: int| 0 <= m < d.len() && d[m] == find_entry(s, key)->Some_0;
        assert(s[m + 1] == find_entry(s, key)->Some_0);
    }
}

} // verus!
