//! A cache that computes the value of a key once and hands it out until it has expired.
//!
//! Each key has a version: the moment, in nanoseconds since the cache was made, at which the
//! key was first asked for or last found expired. Values are cached under the key and its
//! version, so giving a key a new version retires the value it had.
use crate::store::{
    cache_contents, cache_get, cache_insert, cache_items_capacity, cache_new, cache_remove,
    instant_now, latest_contents, latest_get, latest_insert, latest_new, nanos_since, shard_room,
};
use dashmap::DashMap;
use quick_cache::sync::Cache;
use std::time::Instant;
use vstd::prelude::*;

verus! {

/// The number of values that the cache is made to hold. It should not be large compared to the
/// number of threads that ask: deduplicated work ends up in a storage of its own, and later
/// requests are answered from there.
pub const CACHE_CAPACITY: usize = 128;

/// Whether `now` is a moment that the clock itself gives, counted from `origin`.
pub closed spec fn clock_shows(origin: Instant, now: u128) -> bool {
    call_ensures(nanos_since, (&origin,), now)
}

/// What `clock` gives, counted from `origin`.
fn read_clock<F: Fn(&Instant) -> u128>(clock: F, origin: &Instant) -> (now: u128)
    requires
        call_requires(clock, (origin,)),
    ensures
        call_ensures(clock, (origin,), now),
{
    clock(origin)
}

/// The nanoseconds from `created` to `now`, or zero where `now` is the earlier.
pub open spec fn elapsed(created: u128, now: u128) -> int {
    if now >= created {
        now - created
    } else {
        0
    }
}

/// Whether a version made at `created` has lived for `ttl` nanoseconds or longer.
pub open spec fn expired(created: u128, now: u128, ttl: u128) -> bool {
    elapsed(created, now) >= ttl
}

/// What becomes of a key's version when the key is asked for.
#[derive(Debug, Clone, Copy, PartialEq, Eq, Structural)]
pub struct Renewal {
    /// The version that the key has from now on.
    pub version: u128,
    /// The version that it had, where that one has expired: its value is to be removed.
    pub stale: Option<u128>,
}

/// The renewal of a key that has the version `created`, or none yet, asked for at `now`.
pub open spec fn renewal(created: Option<u128>, now: u128, ttl: u128) -> Renewal {
    match created {
        None => Renewal { version: now, stale: None },
        Some(t) => if expired(t, now, ttl) {
            Renewal { version: now, stale: Some(t) }
        } else {
            Renewal { version: t, stale: None }
        },
    }
}

/// Decides whether a key keeps its version: a key without one gets `now`, an expired version is
/// replaced by `now`, and any other is kept.
pub fn renew(created: Option<u128>, now: u128, ttl: u128) -> (r: Renewal)
    ensures
        r == renewal(created, now, ttl),
        created is None ==> r.version == now && r.stale is None,
        created matches Some(t) ==> {
            &&& now >= t + ttl || ttl == 0 ==> r.version == now && r.stale == Some(t)
            &&& now < t + ttl && ttl > 0 ==> r.version == t && r.stale is None
        },
{
    match created {
        None => Renewal { version: now, stale: None },
        Some(t) => {
            let age: u128 = if now >= t { now - t } else { 0 };
            if age >= ttl {
                Renewal { version: now, stale: Some(t) }
            } else {
                Renewal { version: t, stale: None }
            }
        },
    }
}

/// A version is replaced by the moment of the request, and its value removed, exactly where the time
/// to live has passed since it was made. Without a time to live that is always so. A key that
/// has no version gets the moment of the request.
pub proof fn law_versions_expire_after_their_ttl(created: u128, now: u128, ttl: u128)
    ensures
        now >= created + ttl || ttl == 0 ==> renewal(Some(created), now, ttl) == (Renewal {
            version: now,
            stale: Some(created),
        }),
        now < created + ttl && ttl > 0 ==> renewal(Some(created), now, ttl) == (Renewal {
            version: created,
            stale: None,
        }),
        renewal(None, now, ttl) == (Renewal { version: now, stale: None }),
{
}

/// The state of a [`Singleflight`].
#[verifier::ext_equal]
pub ghost struct SingleflightState {
    /// The version of every key that was asked for.
    pub latest: Map<u64, u128>,
    /// The cached values, by key and version.
    pub cached: Map<(u64, u128), u64>,
    /// How long a version lives, in nanoseconds.
    pub ttl: u128,
    /// The number of values that the cache was made to hold.
    pub capacity: nat,
    /// The moment that all others are counted from.
    pub origin: Instant,
}

impl SingleflightState {
    /// Only the latest version of a key is cached. This holds as long as no value is stored for a
    /// version that was replaced while the value was computed.
    pub open spec fn wf(self) -> bool {
        &&& self.cached.dom().finite()
        &&& forall|k: u64, t: u128| #[trigger]
            self.cached.contains_key((k, t)) ==> self.latest.contains_key(k) && self.latest[k] == t
    }

    /// The number of values that can be cached without any being evicted.
    pub open spec fn room(self) -> nat {
        shard_room(self.capacity)
    }

    /// The keys that a value is cached for.
    pub open spec fn cached_keys(self) -> Set<u64> {
        Set::new(|k: u64| exists|t: u128| self.cached.contains_key((k, t)))
    }

    /// The state without the value that is cached under `key`.
    pub open spec fn removed(self, key: (u64, u128)) -> Self {
        SingleflightState { cached: self.cached.remove(key), ..self }
    }

    /// The version that `k` has once it was asked for at `now`.
    pub open spec fn version_at(self, k: u64, now: u128) -> u128 {
        renewal(self.latest.get(k), now, self.ttl).version
    }

    /// The state once the version of `k` was asked for at `now`.
    pub open spec fn touched(self, k: u64, now: u128) -> Self {
        let r = renewal(self.latest.get(k), now, self.ttl);
        let kept = match r.stale {
            Some(t) => self.removed((k, t)),
            None => self,
        };
        SingleflightState { latest: self.latest.insert(k, r.version), ..kept }
    }

    /// The cached value that a request for `k` at `now` is answered with, if there is one.
    pub open spec fn lookup(self, k: u64, now: u128) -> Option<u64> {
        self.touched(k, now).cached.get((k, self.version_at(k, now)))
    }

    /// `post` is this state with `v` cached under `key`. Values may have been evicted on the
    /// way, this one among them, but none while there is room.
    pub open spec fn stored(self, key: (u64, u128), v: u64, post: Self) -> bool {
        &&& post.latest == self.latest
        &&& post.ttl == self.ttl
        &&& post.capacity == self.capacity
        &&& post.origin == self.origin
        &&& post.cached.submap_of(self.cached.insert(key, v))
        &&& self.cached.len() < self.room() ==> post.cached == self.cached.insert(key, v)
    }

    /// A request for `k` at `now` is answered with `v` and leaves the state `post`: with the
    /// cached value where there is one, and otherwise with one that is then stored.
    pub open spec fn answered(self, k: u64, now: u128, v: u64, post: Self) -> bool {
        match self.lookup(k, now) {
            Some(c) => v == c && post == self.touched(k, now),
            None => self.touched(k, now).stored((k, self.version_at(k, now)), v, post),
        }
    }
}

/// A key that is asked for when the time to live has passed since its version was made gets the
/// moment of the request as its version and is not answered from the cache. What the cache
/// held for the old version is removed, and nothing else changes. That no value is cached for
/// the new version is so in every well-formed state, and in any other unless one was stored
/// for a version before it was made.
pub proof fn law_expired_version_is_replaced(s: SingleflightState, k: u64, now: u128)
    requires
        s.latest.contains_key(k),
        now >= s.latest[k] + s.ttl || s.ttl == 0,
    ensures
        s.version_at(k, now) == now,
        s.touched(k, now) == (SingleflightState {
            latest: s.latest.insert(k, now),
            cached: s.cached.remove((k, s.latest[k])),
            ttl: s.ttl,
            capacity: s.capacity,
            origin: s.origin,
        }),
        s.wf() ==> s.lookup(k, now) is None,
        now == s.latest[k] || !s.cached.contains_key((k, now)) ==> s.lookup(k, now) is None,
{
    if s.wf() && s.cached.contains_key((k, now)) {
        assert(s.latest[k] == now);
    }
}

/// A key that is asked for before the time to live has passed since its version was made keeps
/// that version, and is answered with what the cache holds for it. Nothing changes.
pub proof fn law_live_version_is_kept(s: SingleflightState, k: u64, now: u128)
    requires
        s.latest.contains_key(k),
        now < s.latest[k] + s.ttl,
        s.ttl > 0,
    ensures
        s.version_at(k, now) == s.latest[k],
        s.touched(k, now) == s,
        s.cached.contains_key((k, s.latest[k])) ==> s.lookup(k, now) == Some(
            s.cached[(k, s.latest[k])],
        ),
        !s.cached.contains_key((k, s.latest[k])) ==> s.lookup(k, now) is None,
{
    assert(s.latest.insert(k, s.latest[k]) =~= s.latest);
}

/// A key that was never asked for gets the moment of the request as its version. The cache does
/// not change, and nothing changes for other keys.
pub proof fn law_new_key_gets_a_version(s: SingleflightState, k: u64, now: u128)
    requires
        !s.latest.contains_key(k),
    ensures
        s.version_at(k, now) == now,
        s.touched(k, now) == (SingleflightState {
            latest: s.latest.insert(k, now),
            cached: s.cached,
            ttl: s.ttl,
            capacity: s.capacity,
            origin: s.origin,
        }),
        s.wf() || !s.cached.contains_key((k, now)) ==> s.lookup(k, now) is None,
{
    if s.wf() && s.cached.contains_key((k, now)) {
        assert(s.latest.contains_key(k));
    }
}

/// Storing a value changes no version, makes no value appear but that one, and changes no value
/// that stays. While fewer values are cached than 32, and than the cache was made to hold, the
/// value is there afterwards, and so is every other.
pub proof fn law_storing_adds_one_value(
    s: SingleflightState,
    key: (u64, u128),
    v: u64,
    post: SingleflightState,
    other: (u64, u128),
)
    requires
        s.stored(key, v, post),
    ensures
        post.latest == s.latest,
        post.ttl == s.ttl,
        post.capacity == s.capacity,
        post.origin == s.origin,
        post.cached.contains_key(key) ==> post.cached[key] == v,
        other != key && post.cached.contains_key(other) ==> s.cached.contains_key(other)
            && post.cached[other] == s.cached[other],
        s.cached.len() < 32 && s.cached.len() < s.capacity ==> {
            &&& post.cached.contains_key(key)
            &&& other != key && s.cached.contains_key(other) ==> post.cached.contains_key(other)
        },
{
    let bound = s.cached.insert(key, v);
    if post.cached.contains_key(key) {
        assert(bound.contains_key(key));
        assert(post.cached[key] == bound[key]);
    }
    if other != key && post.cached.contains_key(other) {
        assert(bound.contains_key(other));
        assert(post.cached[other] == bound[other]);
    }
}

/// A request before the time to live has passed since the version of its key was made, for which
/// there is a value, is answered with that value, and changes nothing.
pub proof fn law_live_value_is_the_answer(
    s: SingleflightState,
    k: u64,
    now: u128,
    v: u64,
    post: SingleflightState,
)
    requires
        s.answered(k, now, v, post),
        s.latest.contains_key(k),
        now < s.latest[k] + s.ttl,
        s.ttl > 0,
        s.cached.contains_key((k, s.latest[k])),
    ensures
        v == s.cached[(k, s.latest[k])],
        post == s,
{
    law_live_version_is_kept(s, k, now);
}

/// A request that finds no value leaves the one that it is answered with in the cache, under the
/// version that it has: the one of its key where that is younger than the time to live, and
/// the moment of the request otherwise. It may be evicted, but not while fewer values than 32
/// are cached, and than the cache was made to hold. No other value changes or appears.
pub proof fn law_computed_value_is_kept(
    s: SingleflightState,
    k: u64,
    now: u128,
    v: u64,
    post: SingleflightState,
    other: (u64, u128),
)
    requires
        s.answered(k, now, v, post),
        s.lookup(k, now) is None,
        s.cached.dom().finite(),
    ensures
        ({
            let live = s.latest.contains_key(k) && now < s.latest[k] + s.ttl && s.ttl > 0;
            let version = if live {
                s.latest[k]
            } else {
                now
            };
            let roomy = s.cached.len() < 32 && s.cached.len() < s.capacity;
            &&& post.latest == s.latest.insert(k, version)
            &&& post.ttl == s.ttl && post.capacity == s.capacity && post.origin == s.origin
            &&& roomy ==> post.cached.contains_key((k, version))
            &&& post.cached.contains_key((k, version)) ==> post.cached[(k, version)] == v
            &&& other != (k, version) && post.cached.contains_key(other) ==> s.cached.contains_key(
                other,
            ) && post.cached[other] == s.cached[other]
            &&& roomy && other.0 != k && s.cached.contains_key(other) ==> post.cached.contains_key(
                other,
            )
        }),
{
    let mid = s.touched(k, now);
    let key = (k, s.version_at(k, now));
    if s.latest.contains_key(k) && now < s.latest[k] + s.ttl && s.ttl > 0 {
        law_live_version_is_kept(s, k, now);
        assert(s.latest.insert(k, s.latest[k]) =~= s.latest);
    }
    lemma_touching_frees_room(s, k, now);
    law_storing_adds_one_value(mid, key, v, post, other);
}

/// Storing a value under the latest version of its key keeps the state well-formed.
proof fn lemma_stored_keeps_wf(
    s: SingleflightState,
    key: (u64, u128),
    v: u64,
    post: SingleflightState,
)
    requires
        s.wf(),
        s.latest.contains_key(key.0),
        s.latest[key.0] == key.1,
        s.stored(key, v, post),
    ensures
        post.wf(),
{
    let bound = s.cached.insert(key, v);
    assert(bound.dom().finite());
    vstd::set_lib::lemma_set_subset_finite(bound.dom(), post.cached.dom());
    assert forall|k: u64, t: u128| #[trigger]
        post.cached.contains_key((k, t)) implies post.latest.contains_key(k) && post.latest[k]
        == t by {
        assert(bound.contains_key((k, t)));
        if (k, t) != key {
            assert(s.cached.contains_key((k, t)));
        }
    }
}

/// A request keeps the state well-formed: only the latest version of a key is ever cached.
pub proof fn law_only_latest_version_cached(
    s: SingleflightState,
    k: u64,
    now: u128,
    v: u64,
    post: SingleflightState,
)
    requires
        s.wf(),
        s.answered(k, now, v, post),
    ensures
        post.wf(),
        post.latest[k] == s.version_at(k, now),
{
    let mid = s.touched(k, now);
    assert(mid.wf());
    if s.lookup(k, now) is None {
        lemma_stored_keeps_wf(mid, (k, s.version_at(k, now)), v, post);
    }
}

/// A key that is asked for again before its version has expired is answered with the same value,
/// and nothing is computed, unless the value was evicted in between.
pub proof fn law_value_is_shared_until_expiry(
    s: SingleflightState,
    k: u64,
    now: u128,
    v: u64,
    post: SingleflightState,
    later: u128,
)
    requires
        s.answered(k, now, v, post),
        post.cached.contains_key((k, s.version_at(k, now))),
        !expired(s.version_at(k, now), later, s.ttl),
    ensures
        post.lookup(k, later) == Some(v),
        post.touched(k, later) == post,
{
    let mid = s.touched(k, now);
    let key = (k, s.version_at(k, now));
    assert(post.latest.insert(k, s.version_at(k, now)) == post.latest);
    if s.lookup(k, now) is None {
        assert(mid.cached.insert(key, v).contains_key(key));
        assert(post.cached[key] == v);
    }
}

/// A value that was just answered with is retained while there is room.
pub proof fn law_answer_is_retained(
    s: SingleflightState,
    k: u64,
    now: u128,
    v: u64,
    post: SingleflightState,
)
    requires
        s.cached.dom().finite(),
        s.answered(k, now, v, post),
        s.cached.len() < s.room(),
    ensures
        post.cached.contains_key((k, s.version_at(k, now))),
        post.cached[(k, s.version_at(k, now))] == v,
{
    lemma_touching_frees_room(s, k, now);
}

/// Asking for a version caches nothing.
proof fn lemma_touching_frees_room(s: SingleflightState, k: u64, now: u128)
    requires
        s.cached.dom().finite(),
    ensures
        s.wf() ==> s.touched(k, now).wf(),
        s.touched(k, now).cached.submap_of(s.cached),
        s.touched(k, now).cached.len() <= s.cached.len(),
{
    let mid = s.touched(k, now);
    assert(mid.cached.dom().subset_of(s.cached.dom()));
    vstd::set_lib::lemma_len_subset(mid.cached.dom(), s.cached.dom());
}

/// While there is room for the values of `keys`, a request for one of them evicts nothing.
proof fn lemma_request_with_room(
    s: SingleflightState,
    k: u64,
    now: u128,
    v: u64,
    post: SingleflightState,
    keys: Set<u64>,
)
    requires
        s.wf(),
        s.answered(k, now, v, post),
        keys.finite(),
        keys.contains(k),
        s.cached_keys().subset_of(keys),
        keys.len() <= s.room(),
    ensures
        post.wf(),
        post.capacity == s.capacity,
        post.cached_keys().subset_of(keys),
        post.cached.contains_key((k, s.version_at(k, now))),
        forall|key: (u64, u128)|
            key.0 != k && #[trigger] s.cached.contains_key(key) ==> post.cached.contains_key(key),
{
    let mid = s.touched(k, now);
    let key = (k, s.version_at(k, now));
    law_only_latest_version_cached(s, k, now, v, post);
    lemma_touching_frees_room(s, k, now);
    assert(mid.cached_keys().subset_of(s.cached_keys())) by {
        assert forall|x: u64| mid.cached_keys().contains(x) implies s.cached_keys().contains(x) by {
            let t = choose|t: u128| mid.cached.contains_key((x, t));
            assert(s.cached.contains_key((x, t)));
        }
    }
    if s.lookup(k, now) is None {
        assert(!mid.cached_keys().contains(k));
        lemma_one_value_per_key(mid);
        vstd::set_lib::lemma_len_subset(mid.cached_keys(), keys.remove(k));
        assert(post.cached == mid.cached.insert(key, v));
        assert forall|x: u64| post.cached_keys().contains(x) implies keys.contains(x) by {
            let t = choose|t: u128| post.cached.contains_key((x, t));
            if (x, t) != key {
                assert(mid.cached.contains_key((x, t)));
                assert(mid.cached_keys().contains(x));
            }
        }
    }
}

/// Where only the latest version of a key is cached, there are as many values as keys.
proof fn lemma_one_value_per_key(s: SingleflightState)
    requires
        s.wf(),
    ensures
        s.cached_keys().finite(),
        s.cached_keys().len() == s.cached.len(),
{
    let first = |key: (u64, u128)| key.0;
    assert(s.cached.dom().map(first) =~= s.cached_keys()) by {
        assert forall|x: u64| s.cached_keys().contains(x) implies s.cached.dom().map(first).contains(
            x,
        ) by {
            let t = choose|t: u128| s.cached.contains_key((x, t));
            assert(s.cached.dom().contains((x, t)) && first((x, t)) == x);
        }
        assert forall|x: u64| s.cached.dom().map(first).contains(x) implies s.cached_keys().contains(
            x,
        ) by {
            let key = choose|key: (u64, u128)| s.cached.dom().contains(key) && first(key) == x;
            assert(s.cached.contains_key((x, key.1)));
        }
    }
    assert(vstd::relations::injective_on(first, s.cached.dom())) by {
        assert forall|a: (u64, u128), b: (u64, u128)|
            s.cached.dom().contains(a) && s.cached.dom().contains(b) && #[trigger] first(a)
                == #[trigger] first(b) implies a == b by {
            assert(s.cached.contains_key((a.0, a.1)));
            assert(s.cached.contains_key((b.0, b.1)));
        }
    }
    vstd::set_lib::lemma_map_size(s.cached.dom(), s.cached_keys(), first);
}

/// The requests for `keys` at `times`, made one after the other from `states[0]` on, were answered
/// with `values`. The first was for `k`, and no other request for `k` came once the version that
/// the first one found or made had expired.
pub open spec fn requests_before_expiry(
    states: Seq<SingleflightState>,
    k: u64,
    keys: Seq<u64>,
    times: Seq<u128>,
    values: Seq<u64>,
) -> bool {
    &&& keys.len() >= 1
    &&& times.len() == keys.len()
    &&& values.len() == keys.len()
    &&& states.len() == keys.len() + 1
    &&& keys[0] == k
    &&& forall|i: int|
        0 <= i < keys.len() ==> (#[trigger] states[i]).answered(
            keys[i],
            times[i],
            values[i],
            states[i + 1],
        )
    &&& forall|i: int|
        0 <= i < keys.len() && #[trigger] keys[i] == k ==> !expired(
            states[0].version_at(k, times[0]),
            times[i],
            states[0].ttl,
        )
}

/// After any part of a run of requests before expiry, the first answer is still the one that `k`
/// is answered with, if it was not evicted.
proof fn lemma_first_answer_stays(
    states: Seq<SingleflightState>,
    k: u64,
    keys: Seq<u64>,
    times: Seq<u128>,
    values: Seq<u64>,
    n: int,
)
    requires
        requests_before_expiry(states, k, keys, times, values),
        1 <= n <= keys.len(),
        forall|i: int|
            1 <= i <= n ==> (#[trigger] states[i]).cached.contains_key(
                (k, states[0].version_at(k, times[0])),
            ),
    ensures
        states[n].ttl == states[0].ttl,
        states[n].latest.contains_key(k),
        states[n].latest[k] == states[0].version_at(k, times[0]),
        states[n].cached[(k, states[0].version_at(k, times[0]))] == values[0],
    decreases n,
{
    let version = states[0].version_at(k, times[0]);
    let key = (k, version);
    assert(keys[0] == k);
    assert(states[0].answered(k, times[0], values[0], states[1]));
    assert(states[1].cached.contains_key(key));
    if n == 1 {
        law_value_is_shared_until_expiry(states[0], k, times[0], values[0], states[1], times[0]);
    } else {
        let i = n - 1;
        lemma_first_answer_stays(states, k, keys, times, values, i);
        assert(states[i].answered(keys[i], times[i], values[i], states[i + 1]));
        assert(states[n].cached.contains_key(key));
        assert(states[i].cached.contains_key(key));
        if keys[i] == k {
            assert(!expired(version, times[i], states[0].ttl));
        } else {
            let mid = states[i].touched(keys[i], times[i]);
            let theirs = (keys[i], states[i].version_at(keys[i], times[i]));
            assert(mid.cached.contains_key(key));
            assert(mid.cached[key] == values[0]);
            if states[i].lookup(keys[i], times[i]) is None {
                assert(mid.cached.insert(theirs, values[i]).contains_key(key));
            }
        }
    }
}

/// The work is done once: whatever other keys are asked for in between, every request for a key
/// that comes before the version which the first one found or made expires is answered with
/// the first answer, and only the first can compute anything, as long as the first answer is
/// not evicted.
pub proof fn law_work_is_done_once(
    states: Seq<SingleflightState>,
    k: u64,
    keys: Seq<u64>,
    times: Seq<u128>,
    values: Seq<u64>,
)
    requires
        requests_before_expiry(states, k, keys, times, values),
        forall|i: int|
            1 <= i < keys.len() ==> (#[trigger] states[i]).cached.contains_key(
                (k, states[0].version_at(k, times[0])),
            ),
    ensures
        forall|i: int| 0 <= i < keys.len() && #[trigger] keys[i] == k ==> values[i] == values[0],
        forall|i: int|
            1 <= i < keys.len() && #[trigger] keys[i] == k ==> states[i].lookup(k, times[i])
                is Some,
{
    assert forall|i: int| 1 <= i < keys.len() && #[trigger] keys[i] == k implies values[i]
        == values[0] && states[i].lookup(k, times[i]) is Some by {
        lemma_first_answer_stays(states, k, keys, times, values, i);
        assert(states[i].answered(keys[i], times[i], values[i], states[i + 1]));
        assert(!expired(states[0].version_at(k, times[0]), times[i], states[0].ttl));
        assert(states[i].cached.contains_key((k, states[0].version_at(k, times[0]))));
    }
}

/// During a run of requests before expiry whose keys fit into the room there is, the first answer
/// is not evicted.
proof fn lemma_nothing_is_evicted(
    states: Seq<SingleflightState>,
    k: u64,
    keys: Seq<u64>,
    times: Seq<u128>,
    values: Seq<u64>,
    n: int,
)
    requires
        requests_before_expiry(states, k, keys, times, values),
        states[0].wf(),
        states[0].cached_keys().union(keys.to_set()).finite(),
        states[0].cached_keys().union(keys.to_set()).len() <= states[0].room(),
        1 <= n <= keys.len(),
    ensures
        states[n].wf(),
        states[n].capacity == states[0].capacity,
        states[n].cached_keys().subset_of(states[0].cached_keys().union(keys.to_set())),
        forall|i: int|
            1 <= i <= n ==> (#[trigger] states[i]).cached.contains_key(
                (k, states[0].version_at(k, times[0])),
            ),
    decreases n,
{
    let all = states[0].cached_keys().union(keys.to_set());
    let key = (k, states[0].version_at(k, times[0]));
    let i = n - 1;
    if n > 1 {
        lemma_nothing_is_evicted(states, k, keys, times, values, i);
        lemma_first_answer_stays(states, k, keys, times, values, i);
    }
    assert(keys.contains(keys[i]));
    assert(states[i].answered(keys[i], times[i], values[i], states[i + 1]));
    lemma_request_with_room(states[i], keys[i], times[i], values[i], states[n], all);
    if n > 1 {
        assert(states[i].cached.contains_key(key));
        if keys[i] == k {
            assert(!expired(states[0].version_at(k, times[0]), times[i], states[0].ttl));
        }
    }
    assert(states[n].cached.contains_key(key));
}

/// The work is done once, without any provision about eviction, in a run of requests whose keys,
/// together with those that a value is cached for at its beginning, fit into the room there is.
/// How many requests there are makes no difference.
pub proof fn law_work_is_done_once_with_room(
    states: Seq<SingleflightState>,
    k: u64,
    keys: Seq<u64>,
    times: Seq<u128>,
    values: Seq<u64>,
)
    requires
        requests_before_expiry(states, k, keys, times, values),
        states[0].wf(),
        states[0].cached_keys().union(keys.to_set()).len() <= states[0].room(),
    ensures
        forall|i: int| 0 <= i < keys.len() && #[trigger] keys[i] == k ==> values[i] == values[0],
        forall|i: int|
            1 <= i < keys.len() && #[trigger] keys[i] == k ==> states[i].lookup(k, times[i])
                is Some,
{
    broadcast use vstd::seq_lib::seq_to_set_is_finite;

    lemma_one_value_per_key(states[0]);
    lemma_nothing_is_evicted(states, k, keys, times, values, keys.len() as int);
    law_work_is_done_once(states, k, keys, times, values);
}

/// A value that is cached under another version than the one a key has when it is asked for, such
/// as one that was computed for a version which has meanwhile expired, is not answered with.
/// This holds in every state.
pub proof fn law_value_of_another_version_is_not_served(
    s: SingleflightState,
    k: u64,
    now: u128,
    version: u128,
    v: u64,
)
    requires
        version != s.version_at(k, now),
    ensures
        (SingleflightState { cached: s.cached.insert((k, version), v), ..s }).lookup(k, now)
            == s.lookup(k, now),
{
}

/// A key whose version has expired is never answered from the cache: its value is computed
/// again, under a new version.
pub proof fn law_expired_value_is_computed_again(s: SingleflightState, k: u64, now: u128)
    requires
        s.wf(),
        s.latest.contains_key(k),
        expired(s.latest[k], now, s.ttl),
    ensures
        s.lookup(k, now) is None,
        s.version_at(k, now) == now,
{
    let key = (k, now);
    if s.touched(k, now).cached.contains_key(key) {
        assert(s.cached.contains_key(key));
    }
}

/// A key that was never asked for is never answered from the cache.
pub proof fn law_unknown_key_is_computed(s: SingleflightState, k: u64, now: u128)
    requires
        s.wf(),
        !s.latest.contains_key(k),
    ensures
        s.lookup(k, now) is None,
        s.version_at(k, now) == now,
{
    if s.cached.contains_key((k, now)) {
        assert(s.latest.contains_key(k));
    }
}

/// A request for one key does not answer requests for another: the other key keeps its version,
/// and is answered from the cache as before or, where its value was evicted, not at all. Nothing
/// is evicted while there is room.
pub proof fn law_keys_do_not_share_values(
    s: SingleflightState,
    k: u64,
    now: u128,
    v: u64,
    post: SingleflightState,
    other: u64,
    later: u128,
)
    requires
        s.cached.dom().finite(),
        s.answered(k, now, v, post),
        other != k,
    ensures
        post.version_at(other, later) == s.version_at(other, later),
        post.lookup(other, later) == s.lookup(other, later) || post.lookup(other, later) is None,
        s.cached.len() < s.room() ==> post.lookup(other, later) == s.lookup(other, later),
{
    let mid = s.touched(k, now);
    let key = (k, s.version_at(k, now));
    let theirs = (other, s.version_at(other, later));
    assert(post.latest.get(other) == s.latest.get(other));
    lemma_touching_frees_room(s, k, now);
    if s.lookup(k, now) is None {
        if post.cached.contains_key(theirs) {
            assert(mid.cached.insert(key, v).contains_key(theirs));
            assert(post.cached[theirs] == mid.cached.insert(key, v)[theirs]);
        }
    }
}

/// Removing a value touches nothing else: every other value stays, also one of the same key and
/// another version, and so do all versions. Removing what is not there changes nothing, so
/// removing twice is removing once.
pub proof fn law_removal_touches_nothing_else(s: SingleflightState, key: (u64, u128))
    ensures
        !s.removed(key).cached.contains_key(key),
        forall|other: (u64, u128)|
            other != key ==> #[trigger] s.removed(key).cached.get(other) == s.cached.get(other),
        s.removed(key).latest == s.latest,
        s.removed(key).ttl == s.ttl,
        s.removed(key).capacity == s.capacity,
        s.removed(key).origin == s.origin,
        !s.cached.contains_key(key) ==> s.removed(key) == s,
        s.removed(key).removed(key) == s.removed(key),
{
    if !s.cached.contains_key(key) {
        assert(s.cached.remove(key) =~= s.cached);
    }
    assert(s.cached.remove(key).remove(key) =~= s.cached.remove(key));
}

/// What calls do to the state, one thing at a time. Calls may overlap: what one does may come
/// between what another does.
pub ghost enum Step {
    /// `k` is asked for at `now`.
    Ask { k: u64, now: u128 },
    /// `v` was computed for a key and a version that it had when it was asked for, and is stored.
    /// The version may have been replaced since, and the cache may then refuse the value.
    Store { key: (u64, u128), v: u64 },
}

/// Whether a step leads from the state `s` to the state `post`.
pub open spec fn step_leads(s: SingleflightState, step: Step, post: SingleflightState) -> bool {
    match step {
        Step::Ask { k, now } => post == s.touched(k, now),
        Step::Store { key, v } => s.stored(key, v, post) || post == s,
    }
}

/// Whether `steps` lead through `states`.
pub open spec fn steps_lead(states: Seq<SingleflightState>, steps: Seq<Step>) -> bool {
    &&& states.len() == steps.len() + 1
    &&& forall|i: int|
        0 <= i < steps.len() ==> step_leads(#[trigger] states[i], steps[i], states[i + 1])
}

/// A request that is not interrupted is two steps at most: the key is asked for, and where that
/// finds no value, the one that was computed is stored under the version that was found.
pub proof fn law_request_is_ask_and_store(
    s: SingleflightState,
    k: u64,
    now: u128,
    v: u64,
    post: SingleflightState,
)
    requires
        s.answered(k, now, v, post),
    ensures
        step_leads(s, Step::Ask { k, now }, s.touched(k, now)),
        match s.lookup(k, now) {
            Some(found) => v == found && post == s.touched(k, now),
            None => step_leads(
                s.touched(k, now),
                Step::Store { key: (k, s.version_at(k, now)), v },
                post,
            ),
        },
{
}

/// The clock does not go back during `steps`, and no version of `first` is ahead of it.
pub open spec fn monotone_clock(first: SingleflightState, steps: Seq<Step>) -> bool {
    &&& forall|i: int, j: int|
        #![trigger steps[i], steps[j]]
        0 <= i <= j < steps.len() && steps[i] is Ask && steps[j] is Ask ==> steps[i]->now
            <= steps[j]->now
    &&& forall|k: u64, i: int|
        #![trigger first.latest.contains_key(k), steps[i]]
        first.latest.contains_key(k) && 0 <= i < steps.len() && steps[i] is Ask
            ==> first.latest[k] <= steps[i]->now
}

/// Under a monotone clock no version is ever ahead of the requests still to come.
proof fn lemma_versions_are_past(
    states: Seq<SingleflightState>,
    steps: Seq<Step>,
    k: u64,
    n: int,
    i: int,
)
    requires
        steps_lead(states, steps),
        monotone_clock(states[0], steps),
        0 <= n <= i < steps.len(),
        steps[i] is Ask,
        states[n].latest.contains_key(k),
    ensures
        states[n].latest[k] <= steps[i]->now,
    decreases n,
{
    if n == 0 {
        assert(states[0].latest.contains_key(k) && steps[i] is Ask);
    } else {
        let m = n - 1;
        assert(step_leads(states[m], steps[m], states[m + 1]));
        if steps[m] is Ask {
            assert(steps[m]->now <= steps[i]->now);
        }
        if states[m].latest.contains_key(k) {
            lemma_versions_are_past(states, steps, k, m, i);
        }
    }
}

/// Whatever calls are made, a version never goes back, and one is replaced by another only when at
/// least the time to live has passed since it was made. The one provision is for a time to
/// live of zero, with which every request renews its key: the clock must not go back then.
pub proof fn law_versions_live_for_their_ttl(
    states: Seq<SingleflightState>,
    steps: Seq<Step>,
    k: u64,
    i: int,
    j: int,
)
    requires
        steps_lead(states, steps),
        states[0].ttl > 0 || monotone_clock(states[0], steps),
        0 <= i <= j <= steps.len(),
        states[i].latest.contains_key(k),
    ensures
        states[j].latest.contains_key(k),
        states[i].latest[k] <= states[j].latest[k],
        states[i].latest[k] != states[j].latest[k] ==> states[j].latest[k] - states[i].latest[k]
            >= states[0].ttl,
    decreases j,
{
    if i < j {
        let m = j - 1;
        law_versions_live_for_their_ttl(states, steps, k, i, m);
        lemma_steps_keep_ttl(states, steps, m);
        assert(step_leads(states[m], steps[m], states[m + 1]));
        if states[0].ttl == 0 && steps[m] is Ask {
            lemma_versions_are_past(states, steps, k, m, m);
        }
    }
}

/// Steps do not change how long versions live.
proof fn lemma_steps_keep_ttl(states: Seq<SingleflightState>, steps: Seq<Step>, n: int)
    requires
        steps_lead(states, steps),
        0 <= n <= steps.len(),
    ensures
        states[n].ttl == states[0].ttl,
    decreases n,
{
    if n > 0 {
        lemma_steps_keep_ttl(states, steps, n - 1);
        assert(step_leads(states[n - 1], steps[n - 1], states[n - 1 + 1]));
    }
}

/// Every cached value was stored under the key and version that it is found under, if it was not
/// there from the beginning.
pub proof fn law_cached_values_were_stored(
    states: Seq<SingleflightState>,
    steps: Seq<Step>,
    n: int,
    key: (u64, u128),
)
    requires
        steps_lead(states, steps),
        0 <= n <= steps.len(),
        states[n].cached.contains_key(key),
    ensures
        states[0].cached.get(key) == states[n].cached.get(key) || exists|i: int|
            0 <= i < n && #[trigger] steps[i] == (Step::Store { key, v: states[n].cached[key] }),
    decreases n,
{
    if n > 0 {
        let m = n - 1;
        assert(step_leads(states[m], steps[m], states[m + 1]));
        match steps[m] {
            Step::Ask { k, now } => {
                assert(states[m].cached.contains_key(key));
                law_cached_values_were_stored(states, steps, m, key);
                if states[0].cached.get(key) != states[n].cached.get(key) {
                    let i = choose|i: int|
                        0 <= i < m && #[trigger] steps[i] == (Step::Store {
                            key,
                            v: states[m].cached[key],
                        });
                    assert(0 <= i < n);
                }
            },
            Step::Store { key: stored, v } => {
                if states[m].stored(stored, v, states[n]) {
                    assert(states[m].cached.insert(stored, v).contains_key(key));
                    assert(states[n].cached[key] == states[m].cached.insert(stored, v)[key]);
                }
                if states[m].cached.get(key) == states[n].cached.get(key) {
                    law_cached_values_were_stored(states, steps, m, key);
                    if states[0].cached.get(key) != states[n].cached.get(key) {
                        let i = choose|i: int|
                            0 <= i < m && #[trigger] steps[i] == (Step::Store {
                                key,
                                v: states[m].cached[key],
                            });
                        assert(0 <= i < n);
                    }
                }
            },
        }
    }
}

/// A version that has expired is never served again, however late a value is stored for it: once a
/// key has had the version `made`, a call that asks for the key when `made` has expired has a
/// version that was made a time to live later or more, and whatever value that call finds, at
/// once or after waiting, was stored for that later version.
pub proof fn law_late_values_are_not_served(
    states: Seq<SingleflightState>,
    steps: Seq<Step>,
    k: u64,
    now: u128,
    i: int,
    j: int,
    n: int,
)
    requires
        steps_lead(states, steps),
        states[0].ttl > 0,
        0 <= i <= j < n <= steps.len(),
        states[i].latest.contains_key(k),
        steps[j] == (Step::Ask { k, now }),
        expired(states[i].latest[k], now, states[0].ttl),
    ensures
        ({
            let made = states[i].latest[k];
            let version = states[j].version_at(k, now);
            &&& version >= made + states[0].ttl
            &&& states[j].lookup(k, now) == states[j + 1].cached.get((k, version))
            &&& states[n].cached.get((k, version)) matches Some(v) ==> {
                ||| states[0].cached.get((k, version)) == Some(v)
                ||| exists|m: int|
                    0 <= m < n && #[trigger] steps[m] == (Step::Store { key: (k, version), v })
            }
        }),
{
    law_versions_live_for_their_ttl(states, steps, k, i, j);
    lemma_steps_keep_ttl(states, steps, j);
    assert(step_leads(states[j], steps[j], states[j + 1]));
    let version = states[j].version_at(k, now);
    if states[n].cached.contains_key((k, version)) {
        law_cached_values_were_stored(states, steps, n, (k, version));
    }
}

/// What a cache with guards, from which nothing is evicted, sees to when calls overlap: a value is
/// stored under `key` only where there is none, and every value that is stored is there from
/// then on.
pub open spec fn guarded(
    states: Seq<SingleflightState>,
    steps: Seq<Step>,
    key: (u64, u128),
) -> bool {
    forall|i: int|
        #![trigger steps[i]]
        0 <= i < steps.len() ==> match steps[i] {
            Step::Store { key: stored, v } => {
                &&& stored == key ==> !states[i].cached.contains_key(key)
                &&& states[i + 1].cached == states[i].cached.insert(stored, v)
            },
            Step::Ask { .. } => true,
        }
}

/// Whether no call asks for `k` once its version `made` has expired.
pub open spec fn asked_before_expiry(steps: Seq<Step>, k: u64, made: u128, ttl: u128) -> bool {
    forall|n: int|
        #![trigger steps[n]]
        0 <= n < steps.len() && steps[n] is Ask && steps[n]->k == k ==> !expired(
            made,
            steps[n]->now,
            ttl,
        )
}

/// Whether a call with the key and version `key` can return `v` at the step `n`: because it finds
/// `v`, or because it has computed and stores it.
pub open spec fn returned(
    states: Seq<SingleflightState>,
    steps: Seq<Step>,
    key: (u64, u128),
    n: int,
    v: u64,
) -> bool {
    &&& 0 <= n < steps.len()
    &&& states[n].cached.get(key) == Some(v) || steps[n] == (Step::Store { key, v })
}

/// A value that is there stays, and nothing more is stored for its key and version, while no call
/// asks for the key after that version expires.
proof fn lemma_value_stays(
    states: Seq<SingleflightState>,
    steps: Seq<Step>,
    k: u64,
    made: u128,
    i: int,
    j: int,
)
    requires
        steps_lead(states, steps),
        states[0].latest.contains_key(k),
        states[0].latest[k] == made,
        guarded(states, steps, (k, made)),
        asked_before_expiry(steps, k, made, states[0].ttl),
        0 <= i <= j <= steps.len(),
    ensures
        states[j].latest.contains_key(k),
        states[j].latest[k] == made,
        states[i].cached.contains_key((k, made)) ==> {
            &&& states[j].cached.contains_key((k, made))
            &&& states[j].cached[(k, made)] == states[i].cached[(k, made)]
            &&& j < steps.len() ==> !(steps[j] is Store && steps[j]->key == (k, made))
        },
    decreases j,
{
    if j > 0 {
        let m = j - 1;
        if i < j {
            lemma_value_stays(states, steps, k, made, i, m);
        } else {
            lemma_value_stays(states, steps, k, made, m, m);
        }
        lemma_steps_keep_ttl(states, steps, m);
        assert(step_leads(states[m], steps[m], states[m + 1]));
    }
}

/// Overlapping calls do the work once: where all calls for `k` ask before its version `made`
/// expires, whatever other calls do in between, all of them have that version, only one of them
/// stores a value, and all return the same value.
pub proof fn law_overlapping_calls_share_one_value(
    states: Seq<SingleflightState>,
    steps: Seq<Step>,
    k: u64,
    made: u128,
)
    requires
        steps_lead(states, steps),
        states[0].latest.contains_key(k),
        states[0].latest[k] == made,
        guarded(states, steps, (k, made)),
        asked_before_expiry(steps, k, made, states[0].ttl),
    ensures
        forall|n: int|
            #![trigger steps[n]]
            0 <= n < steps.len() && steps[n] is Ask && steps[n]->k == k ==> states[n].version_at(
                k,
                steps[n]->now,
            ) == made,
        forall|m: int, n: int|
            #![trigger steps[m], steps[n]]
            0 <= m < steps.len() && 0 <= n < steps.len() && steps[m] is Store && steps[n] is Store
                && steps[m]->key == (k, made) && steps[n]->key == (k, made) ==> m == n,
        forall|m: int, n: int, v: u64, w: u64|
            #[trigger] returned(states, steps, (k, made), m, v) && #[trigger] returned(
                states,
                steps,
                (k, made),
                n,
                w,
            ) ==> v == w,
{
    let key = (k, made);
    assert forall|n: int|
        #![trigger steps[n]]
        0 <= n < steps.len() && steps[n] is Ask && steps[n]->k == k implies states[n].version_at(
        k,
        steps[n]->now,
    ) == made by {
        lemma_value_stays(states, steps, k, made, n, n);
        lemma_steps_keep_ttl(states, steps, n);
    }
    assert forall|m: int, n: int|
        #![trigger steps[m], steps[n]]
        0 <= m < steps.len() && 0 <= n < steps.len() && steps[m] is Store && steps[n] is Store
            && steps[m]->key == key && steps[n]->key == key implies m == n by {
        if m < n {
            lemma_value_stays(states, steps, k, made, m + 1, n);
        } else if n < m {
            lemma_value_stays(states, steps, k, made, n + 1, m);
        }
    }
    assert forall|m: int, n: int, v: u64, w: u64|
        #[trigger] returned(states, steps, key, m, v) && #[trigger] returned(
            states,
            steps,
            key,
            n,
            w,
        ) implies v == w by {
        lemma_returned_value_is_there(states, steps, k, made, m, v);
        lemma_returned_value_is_there(states, steps, k, made, n, w);
    }
}

/// A value that a call returned is the one that is there at the end.
proof fn lemma_returned_value_is_there(
    states: Seq<SingleflightState>,
    steps: Seq<Step>,
    k: u64,
    made: u128,
    n: int,
    v: u64,
)
    requires
        steps_lead(states, steps),
        states[0].latest.contains_key(k),
        states[0].latest[k] == made,
        guarded(states, steps, (k, made)),
        asked_before_expiry(steps, k, made, states[0].ttl),
        returned(states, steps, (k, made), n, v),
    ensures
        states[steps.len() as int].cached.get((k, made)) == Some(v),
{
    let end = steps.len() as int;
    lemma_value_stays(states, steps, k, made, n, end);
    lemma_value_stays(states, steps, k, made, n + 1, end);
}

/// A cache in which the work for a key is done once and shared by every request that comes
/// before it expires.
#[derive(Debug)]
pub struct Singleflight {
    latest: DashMap<u64, u128>,
    cache: Cache<(u64, u128), u64>,
    ttl: u128,
    origin: Instant,
}

impl View for Singleflight {
    type V = SingleflightState;

    closed spec fn view(&self) -> SingleflightState {
        SingleflightState {
            latest: latest_contents(self.latest),
            cached: cache_contents(self.cache),
            ttl: self.ttl,
            capacity: cache_items_capacity(self.cache),
            origin: self.origin,
        }
    }
}

impl Singleflight {
    /// An empty cache whose values live for `ttl` nanoseconds.
    pub fn new(ttl: u128) -> (r: Singleflight)
        ensures
            r@.wf(),
            r@.latest == Map::<u64, u128>::empty(),
            r@.cached == Map::<(u64, u128), u64>::empty(),
            r@.ttl == ttl,
            r@.capacity == CACHE_CAPACITY,
            r@.capacity == 128,
            r@.room() == 32,
    {
        Singleflight {
            latest: latest_new(),
            cache: cache_new(CACHE_CAPACITY),
            ttl,
            origin: instant_now(),
        }
    }

    /// The value of `k`: the cached one, in which case `f` is not called, or else what `f` computes,
    /// which is then cached.
    pub fn get_or_compute<F: FnOnce() -> u64>(&mut self, k: u64, f: F) -> (v: u64)
        requires
            forall|now: u128| #[trigger]
                old(self)@.lookup(k, now) is None ==> f.requires(()),
        ensures
            old(self)@.wf() ==> final(self)@.wf(),
            exists|now: u128|
                clock_shows(old(self)@.origin, now) && #[trigger] old(self)@.answered(
                    k,
                    now,
                    v,
                    final(self)@,
                ) && (old(self)@.lookup(k, now) is None ==> f.ensures((), v)),
    {
        let now = read_clock(nanos_since, &self.origin);
        self.get_or_compute_at(k, now, f)
    }

    /// The value of `k` at the moment `now`: the cached one, in which case `f` is not called, or
    /// else what `f` computes, which is then cached.
    pub fn get_or_compute_at<F: FnOnce() -> u64>(&mut self, k: u64, now: u128, f: F) -> (v: u64)
        requires
            old(self)@.lookup(k, now) is None ==> f.requires(()),
        ensures
            old(self)@.wf() ==> final(self)@.wf(),
            old(self)@.answered(k, now, v, final(self)@),
            old(self)@.lookup(k, now) is None ==> f.ensures((), v),
    {
        let version = self.version_at(k, now);
        let key = (k, version);
        match cache_get(&self.cache, key) {
            Some(v) => v,
            None => {
                let v = f();
                self.store(key, v);
                v
            },
        }
    }

    /// Caches the value that was computed for a key and a version of it, which may have been replaced
    /// since.
    pub fn store(&mut self, key: (u64, u128), v: u64)
        ensures
            old(self)@.stored(key, v, final(self)@),
            old(self)@.wf() && old(self)@.latest.contains_key(key.0) && old(self)@.latest[key.0]
                == key.1 ==> final(self)@.wf(),
    {
        let ghost before = self@;
        cache_insert(&mut self.cache, key, v);
        proof {
            if before.wf() && before.latest.contains_key(key.0) && before.latest[key.0] == key.1 {
                lemma_stored_keeps_wf(before, key, v, self@);
            }
        }
    }

    /// The current version of `k`, a new one where it has none or its version has expired.
    pub fn version(&mut self, k: u64) -> (r: u128)
        ensures
            old(self)@.wf() ==> final(self)@.wf(),
            exists|now: u128|
                clock_shows(old(self)@.origin, now) && r
                    == #[trigger] old(self)@.version_at(k, now) && final(self)@
                    == old(self)@.touched(k, now),
    {
        let now = read_clock(nanos_since, &self.origin);
        self.version_at(k, now)
    }

    /// The version of `k` at the moment `now`. An expired version is replaced, and its value
    /// removed.
    pub fn version_at(&mut self, k: u64, now: u128) -> (r: u128)
        ensures
            old(self)@.wf() ==> final(self)@.wf(),
            r == old(self)@.version_at(k, now),
            final(self)@ == old(self)@.touched(k, now),
    {
        let step = renew(latest_get(&self.latest, k), now, self.ttl);
        if let Some(created) = step.stale {
            self.remove(&(k, created));
        }
        latest_insert(&mut self.latest, k, step.version);
        step.version
    }

    /// Drops the value that is cached under a key and version.
    pub fn remove(&mut self, k: &(u64, u128))
        ensures
            old(self)@.wf() ==> final(self)@.wf(),
            final(self)@ == old(self)@.removed(*k),
    {
        cache_remove(&mut self.cache, k);
    }
}

} // verus!
