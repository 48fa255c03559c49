use sudo_cache::cache::SudoCache;

#[test]
fn unknown_user_is_not_authenticated() {
    let cache = SudoCache::new();
    assert!(!cache.is_authenticated(1000, 15, 0));
    assert!(!cache.is_authenticated(0, 15, 12345));
    assert!(!cache.is_authenticated(4242, 1, u64::MAX));
}

#[test]
fn authenticate_grants_until_ttl_elapses() {
    let mut cache = SudoCache::new();
    cache.authenticate(1000, 100);
    // Immediately afterward the user is authenticated for any positive ttl.
    assert!(cache.is_authenticated(1000, 15, 100));
    assert!(cache.is_authenticated(1000, 1, 100));
    // Still authenticated strictly inside the window.
    assert!(cache.is_authenticated(1000, 15, 100 + 15 * 60 - 1));
    // The token lapses once its age reaches the window.
    assert!(!cache.is_authenticated(1000, 15, 100 + 15 * 60));
    assert!(!cache.is_authenticated(1000, 15, 100 + 15 * 60 + 1));
}

#[test]
fn authenticate_overwrites_previous_token() {
    let mut cache = SudoCache::new();
    cache.authenticate(1000, 100);
    cache.authenticate(1000, 500);
    // The freshness window is measured from the newest verification.
    assert!(cache.is_authenticated(1000, 15, 500 + 15 * 60 - 1));
    assert!(!cache.is_authenticated(1000, 15, 500 + 15 * 60));
}

#[test]
fn clear_expired_removes_exactly_the_stale_entries() {
    let mut cache = SudoCache::new();
    cache.authenticate(1, 0);
    cache.authenticate(2, 600);
    cache.authenticate(3, 890);
    // At now = 900 with a 15 minute window: user 1 has age 900 (>= 900, stale),
    // users 2 and 3 have ages 300 and 10 (fresh).
    cache.clear_expired(15, 900);
    assert!(!cache.is_authenticated(1, 15, 900));
    assert!(cache.is_authenticated(2, 15, 900));
    assert!(cache.is_authenticated(3, 15, 900));
    // The kept entries are untouched: user 2 still expires at its original time.
    assert!(!cache.is_authenticated(2, 15, 600 + 900));
    assert!(cache.is_authenticated(2, 15, 600 + 899));
}

#[test]
fn clear_expired_is_idempotent() {
    let mut cache = SudoCache::new();
    cache.authenticate(1, 0);
    cache.authenticate(2, 600);
    cache.clear_expired(15, 900);
    cache.clear_expired(15, 900);
    assert!(!cache.is_authenticated(1, 15, 900));
    assert!(cache.is_authenticated(2, 15, 900));
    assert!(!cache.is_authenticated(2, 15, 600 + 900));
}

#[test]
fn clear_all_empties_the_cache() {
    let mut cache = SudoCache::new();
    cache.authenticate(1, 100);
    cache.authenticate(2, 200);
    cache.authenticate(3, 300);
    cache.clear_all();
    assert!(!cache.is_authenticated(1, 15, 300));
    assert!(!cache.is_authenticated(2, 15, 300));
    assert!(!cache.is_authenticated(3, 15, 300));
}
