use vstd::prelude::*;

verus! {

/// Proof that a user identity elevated successfully: the identity and the
/// moment, in seconds of monotonic process time, at which its credential
/// was last verified. Staleness is evaluated lazily at read time.
#[derive(Debug, Clone, Copy)]
pub struct AuthToken {
    user_id: u32,
    issued_at: u64,
}

/// A token issued at `issued_at` is still fresh at `now` under a
/// time-to-live of `ttl_minutes` iff its age is strictly below the window.
pub open spec fn fresh_at(issued_at: u64, ttl_minutes: u64, now: u64) -> bool {
    now - issued_at < ttl_minutes * 60
}

/// The cache state `m` (user id -> issue time) authenticates `user_id` at
/// `now` iff an entry exists for it and that entry is still fresh.
pub open spec fn authenticated(m: Map<u32, u64>, user_id: u32, ttl_minutes: u64, now: u64) -> bool {
    m.contains_key(user_id) && fresh_at(m[user_id], ttl_minutes, now)
}

/// The expiry sweep of `m` at `now`: exactly the entries still fresh
/// remain, each with its issue time unchanged.
pub open spec fn sweep(m: Map<u32, u64>, ttl_minutes: u64, now: u64) -> Map<u32, u64> {
    Map::<u32, u64>::new(
        |u: u32| m.contains_key(u) && fresh_at(m[u], ttl_minutes, now),
        |u: u32| m[u],
    )
}

spec fn unique_users(s: Seq<AuthToken>) -> bool {
    forall|i: int, j: int|
        0 <= i < s.len() && 0 <= j < s.len() && i != j ==> s[i].user_id != s[j].user_id
}

spec fn has_user(s: Seq<AuthToken>, u: u32) -> bool {
    exists|i: int| 0 <= i < s.len() && s[i].user_id == u
}

spec fn user_index(s: Seq<AuthToken>, u: u32) -> int {
    choose|i: int| 0 <= i < s.len() && s[i].user_id == u
}

spec fn token_from_fresh(s0: Seq<AuthToken>, upto: int, ttl: u64, now: u64, t: AuthToken) -> bool {
    exists|m: int| 0 <= m < upto && (#[trigger] s0[m]) == t && fresh_at(t.issued_at, ttl, now)
}

spec fn token_kept(kept: Seq<AuthToken>, t: AuthToken) -> bool {
    exists|k: int| 0 <= k < kept.len() && (#[trigger] kept[k]) == t
}

spec fn cache_map(s: Seq<AuthToken>) -> Map<u32, u64> {
    Map::<u32, u64>::new(
        |u: u32| has_user(s, u),
        |u: u32| s[user_index(s, u)].issued_at,
    )
}

proof fn lemma_cache_map_at(s: Seq<AuthToken>, i: int)
    requires
        unique_users(s),
        0 <= i < s.len(),
    ensures
        cache_map(s).contains_key(s[i].user_id),
        cache_map(s)[s[i].user_id] == s[i].issued_at,
{
    let u = s[i].user_id;
    assert(has_user(s, u));
    let j = user_index(s, u);
    assert(0 <= j < s.len() && s[j].user_id == u);
    assert(j == i);
}

/// The per-user authentication cache: one token per user, a new success
/// overwriting any prior token for the same user. Its view is the map
/// from user id to the issue time of that user's token.
pub struct SudoCache {
    tokens: Vec<AuthToken>,
}

impl View for SudoCache {
    type V = Map<u32, u64>;

    closed spec fn view(&self) -> Map<u32, u64> {
        cache_map(self.tokens@)
    }
}

impl SudoCache {
    /// Well-formedness: at most one token per user identity.
    pub closed spec fn wf(&self) -> bool {
        unique_users(self.tokens@)
    }

    /// An empty cache: no user is authenticated.
    pub fn new() -> (c: SudoCache)
        ensures
            c.wf(),
            c@ == Map::<u32, u64>::empty(),
    {
        let c = SudoCache { tokens: Vec::new() };
        proof {
            assert(c@ =~= Map::<u32, u64>::empty());
        }
        c
    }

    fn find_user(&self, user_id: u32) -> (r: Option<usize>)
        ensures
            match r {
                Some(i) => i < self.tokens@.len() && self.tokens@[i as int].user_id == user_id,
                None => !has_user(self.tokens@, user_id),
            },
    {
        let n = self.tokens.len();
        let mut i: usize = 0;
        while i < n
            invariant
                i <= n,
                n == self.tokens@.len(),
                forall|k: int| 0 <= k < i ==> self.tokens@[k].user_id != user_id,
            decreases n - i,
        {
            if self.tokens[i].user_id == user_id {
                return Some(i);
            }
            i += 1;
        }
        None
    }

    /// True iff an entry exists for `user_id` and its age at `now` is
    /// strictly below `ttl_minutes`. Read-only; neither mutates nor evicts.
    pub fn is_authenticated(&self, user_id: u32, ttl_minutes: u64, now: u64) -> (r: bool)
        requires
            self.wf(),
        ensures
            r == authenticated(self@, user_id, ttl_minutes, now),
    {
        match self.find_user(user_id) {
            None => {
                proof {
                    assert(!self@.contains_key(user_id));
                }
                false
            },
            Some(i) => {
                let t = self.tokens[i];
                proof {
                    lemma_cache_map_at(self.tokens@, i as int);
                }
                if t.issued_at <= now {
                    ((now - t.issued_at) as u128) < (ttl_minutes as u128) * 60
                } else {
                    true
                }
            },
        }
    }

    /// Inserts or overwrites the entry for `user_id` with issue time `now`.
    pub fn authenticate(&mut self, user_id: u32, now: u64)
        requires
            old(self).wf(),
        ensures
            final(self).wf(),
            final(self)@ == old(self)@.insert(user_id, now),
    {
        let ghost s0 = self.tokens@;
        match self.find_user(user_id) {
            Some(i) => {
                let _ = self.tokens.remove(i);
                proof {
                    lemma_unique_remove(s0, i as int);
                }
            },
            None => {},
        }
        let ghost s1 = self.tokens@;
        proof {
            lemma_removed_map(s0, s1, user_id);
        }
        self.tokens.push(AuthToken { user_id, issued_at: now });
        proof {
            lemma_push_fresh(s1, user_id, now);
            assert(cache_map(self.tokens@) =~= cache_map(s0).insert(user_id, now));
        }
    }

    /// Removes exactly the entries whose age at `now` is at least
    /// `ttl_minutes`, leaving every fresh entry untouched.
    pub fn clear_expired(&mut self, ttl_minutes: u64, now: u64)
        requires
            old(self).wf(),
        ensures
            final(self).wf(),
            final(self)@ == sweep(old(self)@, ttl_minutes, now),
    {
        let ghost s0 = self.tokens@;
        let n = self.tokens.len();
        let mut kept: Vec<AuthToken> = Vec::new();
        let mut i: usize = 0;
        while i < n
            invariant
                i <= n,
                n == s0.len(),
                self.tokens@ == s0,
                unique_users(s0),
                unique_users(kept@),
                forall|k: int|
                    0 <= k < kept@.len() ==> #[trigger] token_from_fresh(
                        s0,
                        i as int,
                        ttl_minutes,
                        now,
                        kept@[k],
                    ),
                forall|m: int|
                    0 <= m < i && fresh_at((#[trigger] s0[m]).issued_at, ttl_minutes, now)
                        ==> token_kept(kept@, s0[m]),
            decreases n - i,
        {
            let t = self.tokens[i];
            let keep = if t.issued_at <= now {
                ((now - t.issued_at) as u128) < (ttl_minutes as u128) * 60
            } else {
                true
            };
            let ghost kept0 = kept@;
            if keep {
                proof {
                    assert(fresh_at(t.issued_at, ttl_minutes, now));
                    if has_user(kept0, t.user_id) {
                        let k = user_index(kept0, t.user_id);
                        assert(0 <= k < kept0.len() && kept0[k].user_id == t.user_id);
                        assert(token_from_fresh(s0, i as int, ttl_minutes, now, kept0[k]));
                        let m = choose|m: int|
                            0 <= m < i && (#[trigger] s0[m]) == kept0[k] && fresh_at(
                                kept0[k].issued_at,
                                ttl_minutes,
                                now,
                            );
                        assert(s0[m].user_id == s0[i as int].user_id);
                        assert(false);
                    }
                }
                kept.push(t);
                proof {
                    lemma_keep_step(s0, kept0, i as int, ttl_minutes, now);
                }
            } else {
                proof {
                    lemma_skip_step(s0, kept0, i as int, ttl_minutes, now);
                }
            }
            i += 1;
        }
        self.tokens = kept;
        proof {
            lemma_filtered_is_sweep(s0, self.tokens@, ttl_minutes, now);
        }
    }

    /// Removes every entry, regardless of age.
    pub fn clear_all(&mut self)
        ensures
            final(self).wf(),
            final(self)@ == Map::<u32, u64>::empty(),
    {
        self.tokens = Vec::new();
        proof {
            assert(cache_map(self.tokens@) =~= Map::<u32, u64>::empty());
        }
    }
}

proof fn lemma_unique_remove(s: Seq<AuthToken>, i: int)
    requires
        unique_users(s),
        0 <= i < s.len(),
    ensures
        unique_users(s.remove(i)),
        !has_user(s.remove(i), s[i].user_id),
        forall|u: u32| u != s[i].user_id ==> has_user(s.remove(i), u) == has_user(s, u),
        forall|u: u32|
            u != s[i].user_id && has_user(s, u) ==> cache_map(s.remove(i))[u] == cache_map(s)[u],
{
    let s1 = s.remove(i);
    let u0 = s[i].user_id;
    assert(unique_users(s1)) by {
        assert forall|p: int, q: int|
            0 <= p < s1.len() && 0 <= q < s1.len() && p != q implies s1[p].user_id
            != s1[q].user_id by {
            let p0 = if p < i { p } else { p + 1 };
            let q0 = if q < i { q } else { q + 1 };
            assert(s1[p] == s[p0] && s1[q] == s[q0]);
        }
    }
    assert(!has_user(s1, u0)) by {
        if has_user(s1, u0) {
            let k = choose|k: int| 0 <= k < s1.len() && s1[k].user_id == u0;
            let k0 = if k < i { k } else { k + 1 };
            assert(s1[k] == s[k0]);
            assert(false);
        }
    }
    assert forall|u: u32| u != u0 implies has_user(s1, u) == has_user(s, u) by {
        if has_user(s, u) {
            let k = choose|k: int| 0 <= k < s.len() && s[k].user_id == u;
            let k1 = if k < i { k } else { k - 1 };
            assert(s1[k1] == s[k]);
            assert(has_user(s1, u));
        }
        if has_user(s1, u) {
            let k = choose|k: int| 0 <= k < s1.len() && s1[k].user_id == u;
            let k0 = if k < i { k } else { k + 1 };
            assert(s1[k] == s[k0]);
            assert(has_user(s, u));
        }
    }
    assert forall|u: u32| u != u0 && has_user(s, u) implies cache_map(s1)[u] == cache_map(s)[u] by {
        let k = choose|k: int| 0 <= k < s.len() && s[k].user_id == u;
        lemma_cache_map_at(s, k);
        let k1 = if k < i { k } else { k - 1 };
        assert(s1[k1] == s[k]);
        lemma_cache_map_at(s1, k1);
    }
}

proof fn lemma_removed_map(s0: Seq<AuthToken>, s1: Seq<AuthToken>, u0: u32)
    requires
        unique_users(s0),
        unique_users(s1),
        !has_user(s1, u0),
        forall|u: u32| u != u0 ==> has_user(s1, u) == has_user(s0, u),
        forall|u: u32| u != u0 && has_user(s0, u) ==> cache_map(s1)[u] == cache_map(s0)[u],
    ensures
        cache_map(s1) == cache_map(s0).remove(u0),
{
    assert(cache_map(s1) =~= cache_map(s0).remove(u0));
}

proof fn lemma_push_fresh(s: Seq<AuthToken>, u: u32, now: u64)
    requires
        unique_users(s),
        !has_user(s, u),
    ensures
        unique_users(s.push(AuthToken { user_id: u, issued_at: now })),
        cache_map(s.push(AuthToken { user_id: u, issued_at: now })) == cache_map(s).insert(u, now),
{
    let t = AuthToken { user_id: u, issued_at: now };
    let s2 = s.push(t);
    assert(unique_users(s2)) by {
        assert forall|p: int, q: int|
            0 <= p < s2.len() && 0 <= q < s2.len() && p != q implies s2[p].user_id
            != s2[q].user_id by {
            if p < s.len() && q < s.len() {
                assert(s2[p] == s[p] && s2[q] == s[q]);
            } else if p < s.len() {
                assert(s2[p] == s[p] && s2[q] == t);
                assert(has_user(s, s[p].user_id));
            } else {
                assert(s2[q] == s[q] && s2[p] == t);
                assert(has_user(s, s[q].user_id));
            }
        }
    }
    assert(cache_map(s2) =~= cache_map(s).insert(u, now)) by {
        assert forall|w: u32| true implies #[trigger] has_user(s2, w) == (has_user(s, w) || w
            == u) by {
            if has_user(s2, w) {
                let k = choose|k: int| 0 <= k < s2.len() && s2[k].user_id == w;
                if k < s.len() {
                    assert(s2[k] == s[k]);
                    assert(has_user(s, w));
                } else {
                    assert(s2[k] == t);
                }
            }
            if has_user(s, w) {
                let k = choose|k: int| 0 <= k < s.len() && s[k].user_id == w;
                assert(s2[k] == s[k]);
                assert(has_user(s2, w));
            }
            if w == u {
                assert(s2[s.len() as int] == t);
                assert(has_user(s2, w));
            }
        }
        assert forall|w: u32| has_user(s, w) && w != u implies cache_map(s2)[w]
            == cache_map(s)[w] by {
            let k = choose|k: int| 0 <= k < s.len() && s[k].user_id == w;
            lemma_cache_map_at(s, k);
            assert(s2[k] == s[k]);
            lemma_cache_map_at(s2, k);
        }
        assert(cache_map(s2)[u] == now) by {
            lemma_cache_map_at(s2, s.len() as int);
        }
    }
}

proof fn lemma_keep_step(s0: Seq<AuthToken>, kept: Seq<AuthToken>, i: int, ttl: u64, now: u64)
    requires
        0 <= i < s0.len(),
        fresh_at(s0[i].issued_at, ttl, now),
        forall|k: int|
            0 <= k < kept.len() ==> #[trigger] token_from_fresh(s0, i, ttl, now, kept[k]),
        forall|m: int|
            0 <= m < i && fresh_at((#[trigger] s0[m]).issued_at, ttl, now) ==> token_kept(
                kept,
                s0[m],
            ),
    ensures
        forall|k: int|
            0 <= k < kept.push(s0[i]).len() ==> #[trigger] token_from_fresh(
                s0,
                i + 1,
                ttl,
                now,
                kept.push(s0[i])[k],
            ),
        forall|m: int|
            0 <= m < i + 1 && fresh_at((#[trigger] s0[m]).issued_at, ttl, now) ==> token_kept(
                kept.push(s0[i]),
                s0[m],
            ),
{
    let s2 = kept.push(s0[i]);
    assert forall|k: int| 0 <= k < s2.len() implies #[trigger] token_from_fresh(
        s0,
        i + 1,
        ttl,
        now,
        s2[k],
    ) by {
        if k < kept.len() {
            assert(token_from_fresh(s0, i, ttl, now, kept[k]));
            let m = choose|m: int|
                0 <= m < i && (#[trigger] s0[m]) == kept[k] && fresh_at(
                    kept[k].issued_at,
                    ttl,
                    now,
                );
            assert(s2[k] == kept[k]);
            assert(0 <= m < i + 1 && s0[m] == s2[k] && fresh_at(s2[k].issued_at, ttl, now));
        } else {
            assert(s2[k] == s0[i]);
            assert(0 <= i < i + 1 && s0[i] == s2[k] && fresh_at(s2[k].issued_at, ttl, now));
        }
    }
    assert forall|m: int|
        0 <= m < i + 1 && fresh_at((#[trigger] s0[m]).issued_at, ttl, now) implies token_kept(
        s2,
        s0[m],
    ) by {
        if m < i {
            assert(token_kept(kept, s0[m]));
            let k = choose|k: int| 0 <= k < kept.len() && (#[trigger] kept[k]) == s0[m];
            assert(s2[k] == s0[m]);
        } else {
            assert(s2[kept.len() as int] == s0[m]);
        }
    }
}

proof fn lemma_skip_step(s0: Seq<AuthToken>, kept: Seq<AuthToken>, i: int, ttl: u64, now: u64)
    requires
        0 <= i < s0.len(),
        !fresh_at(s0[i].issued_at, ttl, now),
        forall|k: int|
            0 <= k < kept.len() ==> #[trigger] token_from_fresh(s0, i, ttl, now, kept[k]),
        forall|m: int|
            0 <= m < i && fresh_at((#[trigger] s0[m]).issued_at, ttl, now) ==> token_kept(
                kept,
                s0[m],
            ),
    ensures
        forall|k: int|
            0 <= k < kept.len() ==> #[trigger] token_from_fresh(s0, i + 1, ttl, now, kept[k]),
        forall|m: int|
            0 <= m < i + 1 && fresh_at((#[trigger] s0[m]).issued_at, ttl, now) ==> token_kept(
                kept,
                s0[m],
            ),
{
    assert forall|k: int| 0 <= k < kept.len() implies #[trigger] token_from_fresh(
        s0,
        i + 1,
        ttl,
        now,
        kept[k],
    ) by {
        assert(token_from_fresh(s0, i, ttl, now, kept[k]));
        let m = choose|m: int|
            0 <= m < i && (#[trigger] s0[m]) == kept[k] && fresh_at(kept[k].issued_at, ttl, now);
        assert(0 <= m < i + 1 && s0[m] == kept[k] && fresh_at(kept[k].issued_at, ttl, now));
    }
}

proof fn lemma_filtered_is_sweep(s0: Seq<AuthToken>, kept: Seq<AuthToken>, ttl: u64, now: u64)
    requires
        unique_users(s0),
        unique_users(kept),
        forall|k: int|
            0 <= k < kept.len() ==> #[trigger] token_from_fresh(
                s0,
                s0.len() as int,
                ttl,
                now,
                kept[k],
            ),
        forall|m: int|
            0 <= m < s0.len() && fresh_at((#[trigger] s0[m]).issued_at, ttl, now) ==> token_kept(
                kept,
                s0[m],
            ),
    ensures
        cache_map(kept) == sweep(cache_map(s0), ttl, now),
{
    assert forall|u: u32| true implies #[trigger] has_user(kept, u) == (has_user(s0, u)
        && fresh_at(cache_map(s0)[u], ttl, now)) by {
        if has_user(kept, u) {
            let k = choose|k: int| 0 <= k < kept.len() && kept[k].user_id == u;
            assert(token_from_fresh(s0, s0.len() as int, ttl, now, kept[k]));
            let m = choose|m: int|
                0 <= m < s0.len() && (#[trigger] s0[m]) == kept[k] && fresh_at(
                    kept[k].issued_at,
                    ttl,
                    now,
                );
            lemma_cache_map_at(s0, m);
            assert(has_user(s0, u));
        }
        if has_user(s0, u) && fresh_at(cache_map(s0)[u], ttl, now) {
            let m = choose|m: int| 0 <= m < s0.len() && s0[m].user_id == u;
            lemma_cache_map_at(s0, m);
            assert(fresh_at(s0[m].issued_at, ttl, now));
            assert(token_kept(kept, s0[m]));
            let k = choose|k: int| 0 <= k < kept.len() && (#[trigger] kept[k]) == s0[m];
            assert(kept[k].user_id == u);
            assert(has_user(kept, u));
        }
    }
    assert forall|u: u32| has_user(kept, u) implies cache_map(kept)[u] == cache_map(s0)[u] by {
        let k = choose|k: int| 0 <= k < kept.len() && kept[k].user_id == u;
        assert(token_from_fresh(s0, s0.len() as int, ttl, now, kept[k]));
        let m = choose|m: int|
            0 <= m < s0.len() && (#[trigger] s0[m]) == kept[k] && fresh_at(
                kept[k].issued_at,
                ttl,
                now,
            );
        lemma_cache_map_at(kept, k);
        lemma_cache_map_at(s0, m);
    }
    assert(cache_map(kept) =~= sweep(cache_map(s0), ttl, now));
}

/// A user with no cache entry is never authenticated, for any time-to-live
/// and any current time.
pub proof fn lemma_absent_user_not_authenticated(
    m: Map<u32, u64>,
    user_id: u32,
    ttl_minutes: u64,
    now: u64,
)
    requires
        !m.contains_key(user_id),
    ensures
        !authenticated(m, user_id, ttl_minutes, now),
{
}

/// Recording a verification at `now` authenticates the user at once for any
/// positive time-to-live, and the entry lapses once its age reaches the
/// window: at any `later` with `later - now >= ttl_minutes * 60` the user is
/// no longer authenticated.
pub proof fn lemma_authenticate_window(
    m: Map<u32, u64>,
    user_id: u32,
    ttl_minutes: u64,
    now: u64,
    later: u64,
)
    ensures
        ttl_minutes > 0 ==> authenticated(m.insert(user_id, now), user_id, ttl_minutes, now),
        later - now >= ttl_minutes * 60 ==> !authenticated(
            m.insert(user_id, now),
            user_id,
            ttl_minutes,
            later,
        ),
{
}

/// The expiry sweep removes exactly the entries whose age has reached the
/// window and leaves all others untouched; sweeping twice with the same
/// arguments has the same effect as sweeping once.
pub proof fn lemma_sweep_exact(m: Map<u32, u64>, ttl_minutes: u64, now: u64)
    ensures
        forall|u: u32|
            #[trigger] sweep(m, ttl_minutes, now).contains_key(u) <==> (m.contains_key(u)
                && fresh_at(m[u], ttl_minutes, now)),
        forall|u: u32|
            #[trigger] sweep(m, ttl_minutes, now).contains_key(u) ==> sweep(m, ttl_minutes, now)[u]
                == m[u],
        sweep(sweep(m, ttl_minutes, now), ttl_minutes, now) == sweep(m, ttl_minutes, now),
{
    assert(sweep(sweep(m, ttl_minutes, now), ttl_minutes, now) =~= sweep(m, ttl_minutes, now));
}

/// After a full clear no previously cached user is authenticated: the empty
/// cache authenticates nobody.
pub proof fn lemma_empty_cache_authenticates_nobody(user_id: u32, ttl_minutes: u64, now: u64)
    ensures
        !authenticated(Map::<u32, u64>::empty(), user_id, ttl_minutes, now),
{
}

} // verus!
