use vstd::prelude::*;

use crate::token::{Token, TokenV};
use crate::user::{User, UserV};

verus! {

/// How the store can refuse an access: a lookup that finds no row, or an
/// insert whose key is already taken. Callers collapse either into the
/// generic failure unless a specific kind is owed.
#[derive(Clone, Copy, Debug, PartialEq, Eq, Structural)]
pub enum StoreError {
    NotFound,
    Duplicate,
}

/// Mathematical model of the store: three tables keyed by unique strings.
pub struct DbV {
    pub users: Seq<UserV>,
    pub scopes: Seq<Seq<char>>,
    pub tokens: Seq<TokenV>,
}

/// First user row whose name matches, if any.
pub open spec fn find_user(s: Seq<UserV>, name: Seq<char>) -> Option<UserV>
    decreases s.len(),
{
    if s.len() == 0 {
        None
    } else if s[0].name == name {
        Some(s[0])
    } else {
        find_user(s.drop_first(), name)
    }
}

/// First token row whose identifier matches, if any.
pub open spec fn find_token(s: Seq<TokenV>, id: Seq<char>) -> Option<TokenV>
    decreases s.len(),
{
    if s.len() == 0 {
        None
    } else if s[0].token == id {
        Some(s[0])
    } else {
        find_token(s.drop_first(), id)
    }
}

/// The token rows that survive a purge at instant `now`: exactly those not yet
/// strictly expired (`expiration >= now`).
pub open spec fn purge_spec(s: Seq<TokenV>, now: u64) -> Seq<TokenV>
    decreases s.len(),
{
    if s.len() == 0 {
        s
    } else if s[0].expiration >= now {
        seq![s[0]] + purge_spec(s.drop_first(), now)
    } else {
        purge_spec(s.drop_first(), now)
    }
}

pub open spec fn unique_user_names(s: Seq<UserV>) -> bool {
    forall|i: int, j: int| 0 <= i < j < s.len() ==> s[i].name != s[j].name
}

pub open spec fn unique_token_ids(s: Seq<TokenV>) -> bool {
    forall|i: int, j: int| 0 <= i < j < s.len() ==> s[i].token != s[j].token
}

pub open spec fn unique_scope_names(s: Seq<Seq<char>>) -> bool {
    forall|i: int, j: int| 0 <= i < j < s.len() ==> s[i] != s[j]
}

impl DbV {
    /// Every table keeps its key unique.
    pub open spec fn wf(self) -> bool {
        &&& unique_user_names(self.users)
        &&& unique_token_ids(self.tokens)
        &&& unique_scope_names(self.scopes)
    }
}

/// `find_user` misses exactly when no row carries the name.
pub proof fn lemma_find_user_none(s: Seq<UserV>, name: Seq<char>)
    ensures
        find_user(s, name) is None <==> (forall|i: int|
            0 <= i < s.len() ==> s[i].name != name),
    decreases s.len(),
{
    if s.len() > 0 {
        let d = s.drop_first();
        lemma_find_user_none(d, name);
        if find_user(s, name) is None {
            assert forall|i: int| 0 <= i < s.len() implies s[i].name != name by {
                if i > 0 {
                    assert(d[i - 1] == s[i]);
                }
            }
        }
        if forall|i: int| 0 <= i < s.len() ==> s[i].name != name {
            assert forall|i: int| 0 <= i < d.len() implies d[i].name != name by {
                assert(d[i] == s[i + 1]);
                assert(s[i + 1].name != name);
            }
        }
    }
}

/// A found user row carries the looked-up name and sits in the table.
pub proof fn lemma_find_user_some(s: Seq<UserV>, name: Seq<char>)
    requires
        find_user(s, name) is Some,
    ensures
        find_user(s, name)->Some_0.name == name,
        exists|i: int| 0 <= i < s.len() && s[i] == find_user(s, name)->Some_0,
    decreases s.len(),
{
    if s.len() > 0 && s[0].name != name {
        lemma_find_user_some(s.drop_first(), name);
        let i = choose|i: int|
            0 <= i < s.drop_first().len() && s.drop_first()[i] == find_user(s, name)->Some_0;
        assert(s[i + 1] == find_user(s, name)->Some_0);
    }
}

/// Appending a row only changes lookups that previously missed its name.
pub proof fn lemma_find_user_push(s: Seq<UserV>, u: UserV, name: Seq<char>)
    ensures
        find_user(s.push(u), name) == if find_user(s, name) is Some {
            find_user(s, name)
        } else if u.name == name {
            Some(u)
        } else {
            None::<UserV>
        },
    decreases s.len(),
{
    if s.len() == 0 {
        assert(s.push(u).drop_first() =~= Seq::<UserV>::empty());
    } else {
        assert(s.push(u).drop_first() =~= s.drop_first().push(u));
        lemma_find_user_push(s.drop_first(), u, name);
    }
}

/// `find_token` misses exactly when no row carries the identifier.
pub proof fn lemma_find_token_none(s: Seq<TokenV>, id: Seq<char>)
    ensures
        find_token(s, id) is None <==> (forall|i: int|
            0 <= i < s.len() ==> s[i].token != id),
    decreases s.len(),
{
    if s.len() > 0 {
        let d = s.drop_first();
        lemma_find_token_none(d, id);
        if find_token(s, id) is None {
            assert forall|i: int| 0 <= i < s.len() implies s[i].token != id by {
                if i > 0 {
                    assert(d[i - 1] == s[i]);
                }
            }
        }
        if forall|i: int| 0 <= i < s.len() ==> s[i].token != id {
            assert forall|i: int| 0 <= i < d.len() implies d[i].token != id by {
                assert(d[i] == s[i + 1]);
                assert(s[i + 1].token != id);
            }
        }
    }
}

/// A found token row carries the looked-up identifier and sits in the table.
pub proof fn lemma_find_token_some(s: Seq<TokenV>, id: Seq<char>)
    requires
        find_token(s, id) is Some,
    ensures
        find_token(s, id)->Some_0.token == id,
        exists|i: int| 0 <= i < s.len() && s[i] == find_token(s, id)->Some_0,
    decreases s.len(),
{
    if s.len() > 0 && s[0].token != id {
        lemma_find_token_some(s.drop_first(), id);
        let i = choose|i: int|
            0 <= i < s.drop_first().len() && s.drop_first()[i] == find_token(s, id)->Some_0;
        assert(s[i + 1] == find_token(s, id)->Some_0);
    }
}

/// Appending a row only changes lookups that previously missed its identifier.
pub proof fn lemma_find_token_push(s: Seq<TokenV>, t: TokenV, id: Seq<char>)
    ensures
        find_token(s.push(t), id) == if find_token(s, id) is Some {
            find_token(s, id)
        } else if t.token == id {
            Some(t)
        } else {
            None::<TokenV>
        },
    decreases s.len(),
{
    if s.len() == 0 {
        assert(s.push(t).drop_first() =~= Seq::<TokenV>::empty());
    } else {
        assert(s.push(t).drop_first() =~= s.drop_first().push(t));
        lemma_find_token_push(s.drop_first(), t, id);
    }
}

/// What a purge keeps: every surviving row is a former row that was still
/// live, every live former row survives in order, and the uniqueness and
/// lookup structure is preserved.
pub proof fn lemma_purge_spec(s: Seq<TokenV>, now: u64)
    ensures
        purge_spec(s, now).len() <= s.len(),
        forall|i: int| #![auto]
            0 <= i < purge_spec(s, now).len() ==> purge_spec(s, now)[i].expiration >= now
                && s.contains(purge_spec(s, now)[i]),
        unique_token_ids(s) ==> unique_token_ids(purge_spec(s, now)),
    decreases s.len(),
{
    if s.len() > 0 {
        lemma_purge_spec(s.drop_first(), now);
        let rest = purge_spec(s.drop_first(), now);
        assert forall|i: int| #![auto] 0 <= i < rest.len() implies s.contains(rest[i]) by {
            assert(s.drop_first().contains(rest[i]));
            let j = choose|j: int| 0 <= j < s.drop_first().len() && s.drop_first()[j] == rest[i];
            assert(s[j + 1] == rest[i]);
        }
        if unique_token_ids(s) {
            assert(forall|i: int, j: int|
                0 <= i < j < s.drop_first().len() ==> s.drop_first()[i].token
                    != s.drop_first()[j].token);
            if s[0].expiration >= now {
                let out = seq![s[0]] + rest;
                assert forall|i: int, j: int| 0 <= i < j < out.len() implies out[i].token
                    != out[j].token by {
                    if i == 0 {
                        assert(s.drop_first().contains(rest[j - 1]));
                        let k = choose|k: int|
                            0 <= k < s.drop_first().len() && s.drop_first()[k] == rest[j - 1];
                        assert(s[k + 1] == rest[j - 1]);
                    }
                }
            }
        }
    }
}

/// After a purge, an identifier either reads as before or is gone.
pub proof fn lemma_purge_find(s: Seq<TokenV>, now: u64, id: Seq<char>)
    requires
        unique_token_ids(s),
    ensures
        find_token(purge_spec(s, now), id) is Some ==> find_token(purge_spec(s, now), id)
            == find_token(s, id),
    decreases s.len(),
{
    if s.len() > 0 {
        let d = s.drop_first();
        assert forall|i: int, j: int| 0 <= i < j < d.len() implies d[i].token != d[j].token by {
            assert(d[i] == s[i + 1]);
            assert(d[j] == s[j + 1]);
        }
        lemma_purge_find(d, now, id);
        lemma_purge_spec(d, now);
        let pd = purge_spec(d, now);
        if s[0].expiration >= now {
            let r = seq![s[0]] + pd;
            assert(r[0] == s[0]);
            assert(r.drop_first() =~= pd);
            if find_token(r, id) is Some {
                if s[0].token == id {
                } else {
                    assert(find_token(r, id) == find_token(pd, id));
                    assert(find_token(s, id) == find_token(d, id));
                }
            }
        } else {
            if find_token(pd, id) is Some {
                let e = find_token(pd, id)->Some_0;
                lemma_find_token_some(pd, id);
                let p = choose|p: int| 0 <= p < pd.len() && pd[p] == e;
                assert(d.contains(pd[p]));
                let m = choose|m: int| 0 <= m < d.len() && d[m] == e;
                assert(s[m + 1] == e);
                if s[0].token == id {
                    // the dropped head carried the identifier, so no
                    // survivor may carry it too
                    assert(s[0].token != s[m + 1].token);
                    assert(false);
                }
            }
        }
    }
}

/// A purge removes nothing from a table none of whose rows is expired.
pub proof fn lemma_purge_no_new_expirations(s: Seq<TokenV>, now: u64)
    requires
        forall|i: int| 0 <= i < s.len() ==> s[i].expiration >= now,
    ensures
        purge_spec(s, now) == s,
    decreases s.len(),
{
    if s.len() > 0 {
        let d = s.drop_first();
        assert forall|i: int| 0 <= i < d.len() implies d[i].expiration >= now by {
            assert(d[i] == s[i + 1]);
        }
        lemma_purge_no_new_expirations(d, now);
        assert(seq![s[0]] + d =~= s);
    }
}

/// Purging is idempotent: a second purge at `now2` removes nothing, provided
/// no row expired between the two sweeps (no expiration falls in
/// `(now, now2]`); in particular two purges in succession at the same instant.
pub proof fn lemma_purge_again_zero(s: Seq<TokenV>, now: u64, now2: u64)
    requires
        forall|i: int|
            0 <= i < s.len() ==> (s[i].expiration >= now ==> s[i].expiration >= now2),
    ensures
        purge_spec(purge_spec(s, now), now2) == purge_spec(s, now),
{
    let once = purge_spec(s, now);
    lemma_purge_spec(s, now);
    assert forall|i: int| 0 <= i < once.len() implies once[i].expiration >= now2 by {
        assert(s.contains(once[i]));
        let j = choose|j: int| 0 <= j < s.len() && s[j] == once[i];
        assert(s[j].expiration >= now ==> s[j].expiration >= now2);
    }
    lemma_purge_no_new_expirations(once, now2);
}

/// In-memory persistent store holding the three tables.
///
/// Uniqueness of each key is the store's own constraint: an insert whose key
/// is already present is rejected, never overwritten.
pub struct DB {
    pub users: Vec<User>,
    pub scopes: Vec<String>,
    pub tokens: Vec<Token>,
}

impl View for DB {
    type V = DbV;

    open spec fn view(&self) -> DbV {
        DbV {
            users: self.users.deep_view(),
            scopes: self.scopes.deep_view(),
            tokens: self.tokens.deep_view(),
        }
    }
}

/// Membership of a string in a list, by character content.
pub fn contains_string(v: &Vec<String>, s: &String) -> (r: bool)
    ensures
        r == v.deep_view().contains(s@),
{
    let ghost vs = v.deep_view();
    let mut i: usize = 0;
    while i < v.len()
        invariant
            0 <= i <= v@.len(),
            vs == v.deep_view(),
            vs.len() == v@.len(),
            forall|k: int| 0 <= k < i ==> vs[k] != s@,
        decreases v@.len() - i,
    {
        if v[i] == *s {
            proof {
                assert(vs[i as int] == v@[i as int]@);
            }
            return true;
        }
        proof {
            assert(vs[i as int] == v@[i as int]@);
        }
        i = i + 1;
    }
    false
}

impl DB {
    /// A fresh store seeded with the `authadmin` scope and an enabled
    /// administrator whose digest matches the bootstrap password.
    pub fn new() -> (db: DB)
        ensures
            db@.wf(),
            db@.scopes =~= seq!["authadmin"@],
            db@.tokens =~= Seq::<TokenV>::empty(),
            db@.users.len() == 1,
            db@.users[0].name == "admin"@,
            db@.users[0].hash
                == "$argon2i$v=19$m=4096,t=3,p=1$cmFuZG9tc2FsdA$HXrbCSqkWTwH9W4z4JTyyJuuhEX/DNDs5tgTDfo+dHI"@,
            db@.users[0].enabled,
            db@.users[0].expiration == u64::MAX,
            db@.users[0].scopes =~= seq!["authadmin"@],
    {
        let mut scopes: Vec<String> = Vec::new();
        scopes.push("authadmin".to_owned());
        let mut admin_scopes: Vec<String> = Vec::new();
        admin_scopes.push("authadmin".to_owned());
        let admin = User {
            name: "admin".to_owned(),
            hash: "$argon2i$v=19$m=4096,t=3,p=1$cmFuZG9tc2FsdA$HXrbCSqkWTwH9W4z4JTyyJuuhEX/DNDs5tgTDfo+dHI".to_owned(),
            expiration: u64::MAX,
            enabled: true,
            scopes: admin_scopes,
        };
        let mut users: Vec<User> = Vec::new();
        users.push(admin);
        let db = DB { users, scopes, tokens: Vec::new() };
        proof {
            assert(db@.scopes =~= seq!["authadmin"@]);
            assert(db@.users[0].scopes =~= seq!["authadmin"@]);
            assert(db@.tokens =~= Seq::<TokenV>::empty());
        }
        db
    }

    /// All active scope names, in registry order.
    pub fn get_scopes(&self) -> (r: Vec<String>)
        ensures
            r.deep_view() == self@.scopes,
    {
        let r = self.scopes.clone();
        proof {
            assert(r.deep_view() =~= self.scopes.deep_view());
        }
        r
    }

    /// Insert a scope row; rejected when the name is already registered.
    pub fn add_scope(&mut self, scope: &str) -> (r: Option<()>)
        ensures
            old(self)@.scopes.contains(scope@) ==> r is None && final(self)@ == old(self)@,
            !old(self)@.scopes.contains(scope@) ==> r is Some && final(self)@ == (DbV {
                scopes: old(self)@.scopes.push(scope@),
                ..old(self)@
            }),
            old(self)@.wf() ==> final(self)@.wf(),
    {
        let s = scope.to_owned();
        if contains_string(&self.scopes, &s) {
            return None;
        }
        self.scopes.push(s);
        proof {
            assert(self.scopes.deep_view() =~= old(self).scopes.deep_view().push(scope@));
        }
        Some(())
    }

    /// Remove a scope row; rejected when the name is not registered.
    pub fn delete_scope(&mut self, scope: &str) -> (r: Option<()>)
        ensures
            r is Some <==> old(self)@.scopes.contains(scope@),
            r is None ==> final(self)@ == old(self)@,
            r is Some ==> exists|i: int|
                0 <= i < old(self)@.scopes.len() && old(self)@.scopes[i] == scope@
                    && final(self)@ == (DbV { scopes: old(self)@.scopes.remove(i), ..old(self)@ }),
            old(self)@.wf() ==> final(self)@.wf(),
    {
        let s = scope.to_owned();
        let ghost vs = self.scopes.deep_view();
        let mut i: usize = 0;
        while i < self.scopes.len()
            invariant
                0 <= i <= self.scopes@.len(),
                *self == *old(self),
                vs == self.scopes.deep_view(),
                vs.len() == self.scopes@.len(),
                s@ == scope@,
                forall|k: int| 0 <= k < i ==> vs[k] != scope@,
            decreases self.scopes@.len() - i,
        {
            if self.scopes[i] == s {
                proof {
                    assert(vs[i as int] == self.scopes@[i as int]@);
                    assert(vs.contains(vs[i as int]));
                }
                self.scopes.remove(i);
                proof {
                    let dv = self.scopes.deep_view();
                    let rv = vs.remove(i as int);
                    vs.remove_ensures(i as int);
                    assert(dv =~= rv) by {
                        assert(forall|k: int|
                            0 <= k < dv.len() ==> dv[k] == self.scopes@[k]@);
                    }
                    if old(self)@.wf() {
                        assert forall|a: int, b: int| 0 <= a < b < rv.len() implies rv[a]
                            != rv[b] by {
                            if a < i {
                                assert(rv[a] == vs[a]);
                            } else {
                                assert(rv[a] == vs[a + 1]);
                            }
                            if b < i {
                                assert(rv[b] == vs[b]);
                            } else {
                                assert(rv[b] == vs[b + 1]);
                            }
                        }
                        assert(unique_scope_names(rv));
                    }
                }
                return Some(());
            }
            proof {
                assert(vs[i as int] == self.scopes@[i as int]@);
            }
            i = i + 1;
        }
        proof {
            if old(self)@.scopes.contains(scope@) {
                let k = choose|k: int| 0 <= k < vs.len() && vs[k] == scope@;
                assert(false);
            }
        }
        None
    }

    /// Fetch a user row by name.
    pub fn get_user(&self, name: &String) -> (r: Option<User>)
        ensures
            r.deep_view() == find_user(self@.users, name@),
    {
        let ghost s = self.users.deep_view();
        proof {
            assert(s.skip(0) =~= s);
        }
        let mut i: usize = 0;
        while i < self.users.len()
            invariant
                0 <= i <= self.users@.len(),
                s == self.users.deep_view(),
                s.len() == self.users@.len(),
                find_user(s, name@) == find_user(s.skip(i as int), name@),
            decreases self.users@.len() - i,
        {
            proof {
                assert(s[i as int] == self.users@[i as int]@);
                assert(s.skip(i as int)[0] == s[i as int]);
            }
            if self.users[i].name == *name {
                return Some(self.users[i].clone());
            }
            proof {
                assert(s.skip(i as int).drop_first() =~= s.skip(i as int + 1));
            }
            i = i + 1;
        }
        proof {
            assert(s.skip(i as int) =~= Seq::<UserV>::empty());
        }
        None
    }

    /// Insert a user row; rejected when the name is already taken.
    pub fn add_user(&mut self, u: User) -> (r: Option<()>)
        ensures
            find_user(old(self)@.users, u@.name) is Some ==> r is None
                && final(self)@ == old(self)@,
            find_user(old(self)@.users, u@.name) is None ==> r is Some && final(self)@ == (DbV {
                users: old(self)@.users.push(u@),
                ..old(self)@
            }),
            old(self)@.wf() ==> final(self)@.wf(),
    {
        let existing = self.get_user(&u.name);
        if existing.is_some() {
            return None;
        }
        proof {
            lemma_find_user_none(self@.users, u@.name);
        }
        let ghost uv = u@;
        self.users.push(u);
        proof {
            assert(self.users.deep_view() =~= old(self).users.deep_view().push(uv));
        }
        Some(())
    }

    /// Fetch a token row by identifier.
    pub fn get_token(&self, id: &String) -> (r: Option<Token>)
        ensures
            r.deep_view() == find_token(self@.tokens, id@),
    {
        let ghost s = self.tokens.deep_view();
        proof {
            assert(s.skip(0) =~= s);
        }
        let mut i: usize = 0;
        while i < self.tokens.len()
            invariant
                0 <= i <= self.tokens@.len(),
                s == self.tokens.deep_view(),
                s.len() == self.tokens@.len(),
                find_token(s, id@) == find_token(s.skip(i as int), id@),
            decreases self.tokens@.len() - i,
        {
            proof {
                assert(s[i as int] == self.tokens@[i as int]@);
                assert(s.skip(i as int)[0] == s[i as int]);
            }
            if self.tokens[i].token == *id {
                return Some(self.tokens[i].clone());
            }
            proof {
                assert(s.skip(i as int).drop_first() =~= s.skip(i as int + 1));
            }
            i = i + 1;
        }
        proof {
            assert(s.skip(i as int) =~= Seq::<TokenV>::empty());
        }
        None
    }

    /// Insert a token row; rejected when the identifier is already taken
    /// (the uniqueness constraint is the backstop against collisions).
    pub fn add_token(&mut self, t: Token) -> (r: Option<()>)
        ensures
            find_token(old(self)@.tokens, t@.token) is Some ==> r is None
                && final(self)@ == old(self)@,
            find_token(old(self)@.tokens, t@.token) is None ==> r is Some && final(self)@ == (DbV {
                tokens: old(self)@.tokens.push(t@),
                ..old(self)@
            }),
            old(self)@.wf() ==> final(self)@.wf(),
    {
        let existing = self.get_token(&t.token);
        if existing.is_some() {
            return None;
        }
        proof {
            lemma_find_token_none(self@.tokens, t@.token);
        }
        let ghost tv = t@;
        self.tokens.push(t);
        proof {
            assert(self.tokens.deep_view() =~= old(self).tokens.deep_view().push(tv));
        }
        Some(())
    }

    /// Bulk-delete every token row strictly expired at `now`; returns how many
    /// rows were removed.
    pub fn purge_expired(&mut self, now: u64) -> (n: usize)
        ensures
            final(self)@ == (DbV { tokens: purge_spec(old(self)@.tokens, now), ..old(self)@ }),
            n == old(self)@.tokens.len() - final(self)@.tokens.len(),
            old(self)@.wf() ==> final(self)@.wf(),
    {
        let ghost s = self.tokens.deep_view();
        proof {
            assert(s.skip(0) =~= s);
            assert(Seq::<TokenV>::empty() + purge_spec(s, now) =~= purge_spec(s, now));
        }
        let mut kept: Vec<Token> = Vec::new();
        let mut i: usize = 0;
        while i < self.tokens.len()
            invariant
                0 <= i <= self.tokens@.len(),
                s == self.tokens.deep_view(),
                s.len() == self.tokens@.len(),
                kept.deep_view().len() <= i,
                purge_spec(s, now) == kept.deep_view() + purge_spec(s.skip(i as int), now),
            decreases self.tokens@.len() - i,
        {
            proof {
                assert(s[i as int] == self.tokens@[i as int]@);
                assert(s.skip(i as int)[0] == s[i as int]);
                assert(s.skip(i as int).drop_first() =~= s.skip(i as int + 1));
            }
            let ghost kept_pre = kept.deep_view();
            if self.tokens[i].expiration >= now {
                kept.push(self.tokens[i].clone());
                proof {
                    assert(kept.deep_view() =~= kept_pre.push(s[i as int]));
                    assert(kept_pre + (seq![s[i as int]] + purge_spec(s.skip(i as int + 1), now))
                        =~= kept_pre.push(s[i as int]) + purge_spec(s.skip(i as int + 1), now));
                }
            }
            i = i + 1;
        }
        proof {
            assert(s.skip(i as int) =~= Seq::<TokenV>::empty());
            assert(kept.deep_view() + purge_spec(s.skip(i as int), now) =~= kept.deep_view());
            lemma_purge_spec(s, now);
        }
        let n = self.tokens.len() - kept.len();
        self.tokens = kept;
        proof {
            if old(self)@.wf() {
                assert(unique_token_ids(purge_spec(s, now)));
            }
        }
        n
    }
}

} // verus!
