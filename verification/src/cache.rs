//! Cache store and admission (rate-limit) tracker.
//!
//! The store maps a textual cache key to the last successfully fetched
//! response together with its fetch time; the tracker maps a rate-limit
//! bucket to the time of its last admitted upstream attempt. Both are held
//! as association vectors with pairwise distinct keys and are read in
//! specifications as `Map<Seq<char>, _>` values.
//!
//! All times are whole seconds. Entry timestamps are UTC seconds since the
//! epoch; the current time is always an explicit argument of the `..._at`
//! methods, so that their behaviour is fully determined by their inputs. The
//! methods named as in the service's interface (`get`, `is_fresh`, `set`,
//! ...) read the wall clock once and delegate to their `..._at` form.

use crate::assoc::assoc_has;
use crate::assoc::folded_map;
use crate::assoc::keys_distinct;
use crate::assoc::lemma_assoc_at_found;
use crate::assoc::lemma_assoc_push;
use crate::assoc::lemma_assoc_update;
use crate::assoc::lemma_folded_map_of;
use crate::assoc::lemma_map_of_len;
use crate::assoc::map_of;
use crate::clock::clamped_now;
use vstd::prelude::*;
use vstd::map::*;
use vstd::string::StringExecFns;

verus! {

/// Upper bound (exclusive) on the wall-clock seconds the store accepts.
/// Far beyond any real date; it only keeps the signed arithmetic on
/// timestamps free of overflow.
pub const TIME_BOUND: i64 = 0x1000_0000_0000_0000;

/// Upper bound (exclusive) on the durations (TTL, admission interval,
/// cool-down) the store accepts, for the same reason.
pub const DUR_BOUND: u64 = 0x1000_0000_0000_0000;

/// A single cached response: raw body, its content type, and the wall-clock
/// second (UTC, seconds since the epoch) at which it was fetched.
pub struct CacheEntry {
    pub body: String,
    pub content_type: String,
    pub fetched_at: i64,
}

/// Mathematical image of a `CacheEntry`.
pub ghost struct CacheEntryView {
    pub body: Seq<char>,
    pub content_type: Seq<char>,
    pub fetched_at: int,
}

impl View for CacheEntry {
    type V = CacheEntryView;

    open spec fn view(&self) -> CacheEntryView {
        CacheEntryView {
            body: self.body@,
            content_type: self.content_type@,
            fetched_at: self.fetched_at as int,
        }
    }
}

impl Clone for CacheEntry {
    fn clone(&self) -> (r: Self)
        ensures
            r@ == self@,
    {
        CacheEntry {
            body: self.body.clone(),
            content_type: self.content_type.clone(),
            fetched_at: self.fetched_at,
        }
    }
}

/// Mathematical image of the whole cache: the entry map and the map of
/// last-attempt times per rate-limit bucket.
pub ghost struct CacheView {
    pub entries: Map<Seq<char>, CacheEntryView>,
    pub attempts: Map<Seq<char>, int>,
}

/// Cache key for one resource and endpoint descriptor, as a sequence:
/// `"<rooftop_id>:<endpoint>"`.
pub open spec fn spec_key(rooftop_id: Seq<char>, endpoint: Seq<char>) -> Seq<char> {
    rooftop_id + ":"@ + endpoint
}

/// An entry for `key` exists and its age at `now` is at least zero and
/// strictly below `ttl`. A negative age (clock skew) is not fresh, and the
/// boundary `age == ttl` is already not fresh.
pub open spec fn fresh_at(cv: CacheView, key: Seq<char>, ttl: int, now: int) -> bool {
    &&& cv.entries.contains_key(key)
    &&& 0 <= now - cv.entries[key].fetched_at < ttl
}

/// The bucket admits a new upstream attempt at `now`: either it was never
/// attempted, or at least `interval` seconds have elapsed since the recorded
/// attempt time. A recorded time in the future admits nothing until it is
/// reached (that is how a failure cool-down longer than `interval` works).
pub open spec fn admits_at(cv: CacheView, bucket: Seq<char>, interval: int, now: int) -> bool {
    ||| !cv.attempts.contains_key(bucket)
    ||| now - cv.attempts[bucket] >= interval
}

/// The attempt time recorded after an admitted attempt fails: the next
/// admission check against `interval` succeeds exactly once `cooldown`
/// seconds have passed, whatever `interval` itself is.
pub open spec fn failed_stamp(now: int, interval: int, cooldown: int) -> int {
    now + cooldown - interval
}

/// Cache key for one resource and endpoint descriptor, serialized as
/// `"<rooftop_id>:<endpoint>"`.
pub fn cache_key(rooftop_id: &str, endpoint: &str) -> (r: String)
    ensures
        r@ == spec_key(rooftop_id@, endpoint@),
{
    let mut s = String::from_str(rooftop_id);
    s.append(":");
    s.append(endpoint);
    s
}

/// In-memory cache with TTL freshness and per-bucket admission control.
///
/// Persistence is the caller's business: `snapshot` hands out the full entry
/// list for writing to stable storage, and `from_snapshot` rebuilds a store
/// from a previously saved list.
pub struct ProxyCache {
    entries: Vec<(String, CacheEntry)>,
    attempts: Vec<(String, i64)>,
}

/// The key/value pairs of the entry vector, read mathematically.
pub open spec fn entry_pairs(s: Seq<(String, CacheEntry)>) -> Seq<(Seq<char>, CacheEntryView)> {
    Seq::new(s.len(), |i: int| (s[i].0@, s[i].1@))
}

/// The key/value pairs of the attempt vector, read mathematically.
pub open spec fn stamp_pairs(s: Seq<(String, i64)>) -> Seq<(Seq<char>, int)> {
    Seq::new(s.len(), |i: int| (s[i].0@, s[i].1 as int))
}

/// An entry timestamp the store accepts.
pub open spec fn entry_time_ok(t: int) -> bool {
    0 <= t < TIME_BOUND
}

/// An attempt stamp the store can hold: what `mark_attempt_at` writes is in
/// `[0, TIME_BOUND)` and what `mark_failed_attempt_at` writes stays within
/// one duration bound of that range on either side.
pub open spec fn stamp_ok(t: int) -> bool {
    -(TIME_BOUND as int) < t < 2 * (TIME_BOUND as int)
}

impl View for ProxyCache {
    type V = CacheView;

    closed spec fn view(&self) -> CacheView {
        CacheView {
            entries: map_of(entry_pairs(self.entries@)),
            attempts: map_of(stamp_pairs(self.attempts@)),
        }
    }
}

impl ProxyCache {
    /// Both association vectors have distinct keys and hold times within the
    /// bounds that keep the timestamp arithmetic exact.
    pub closed spec fn wf(&self) -> bool {
        &&& keys_distinct(entry_pairs(self.entries@))
        &&& keys_distinct(stamp_pairs(self.attempts@))
        &&& forall|i: int|
            0 <= i < self.entries@.len() ==> entry_time_ok(#[trigger] self.entries@[i].1.fetched_at as int)
        &&& forall|i: int|
            0 <= i < self.attempts@.len() ==> stamp_ok(#[trigger] self.attempts@[i].1 as int)
    }

    /// Create an empty cache.
    pub fn new() -> (r: Self)
        ensures
            r.wf(),
            r@.entries == Map::<Seq<char>, CacheEntryView>::empty(),
            r@.attempts == Map::<Seq<char>, int>::empty(),
    {
        let r = ProxyCache { entries: Vec::new(), attempts: Vec::new() };
        proof {
            lemma_map_of_no_keys(entry_pairs(r.entries@));
            lemma_map_of_no_keys(stamp_pairs(r.attempts@));
        }
        r
    }

    /// Index of the entry stored under `key`, if any.
    #[verifier::loop_isolation(false)]
    fn find_entry(&self, key: &String) -> (r: Option<usize>)
        ensures
            match r {
                Some(i) => i < self.entries@.len() && self.entries@[i as int].0@ == key@,
                None => !assoc_has(entry_pairs(self.entries@), key@),
            },
    {
        let mut i: usize = 0;
        while i < self.entries.len()
            invariant
                i <= self.entries@.len(),
                forall|j: int| 0 <= j < i ==> self.entries@[j].0@ != key@,
            decreases self.entries@.len() - i,
        {
            if self.entries[i].0 == *key {
                return Some(i);
            }
            i += 1;
        }
        None
    }

    /// Index of the attempt record stored under `key`, if any.
    #[verifier::loop_isolation(false)]
    fn find_attempt(&self, key: &String) -> (r: Option<usize>)
        ensures
            match r {
                Some(i) => i < self.attempts@.len() && self.attempts@[i as int].0@ == key@,
                None => !assoc_has(stamp_pairs(self.attempts@), key@),
            },
    {
        let mut i: usize = 0;
        while i < self.attempts.len()
            invariant
                i <= self.attempts@.len(),
                forall|j: int| 0 <= j < i ==> self.attempts@[j].0@ != key@,
            decreases self.attempts@.len() - i,
        {
            if self.attempts[i].0 == *key {
                return Some(i);
            }
            i += 1;
        }
        None
    }

    /// Store `entry` under `key`, replacing any entry the key already has.
    fn put_entry(&mut self, key: String, entry: CacheEntry)
        requires
            old(self).wf(),
            entry_time_ok(entry.fetched_at as int),
        ensures
            final(self).wf(),
            final(self)@.entries == old(self)@.entries.insert(key@, entry@),
            final(self)@.attempts == old(self)@.attempts,
    {
        let ghost old_pairs = entry_pairs(self.entries@);
        match self.find_entry(&key) {
            Some(i) => {
                let ghost gi = i as int;
                self.entries[i] = (key, entry);
                proof {
                    assert(entry_pairs(self.entries@) =~= old_pairs.update(
                        gi,
                        (old_pairs[gi].0, entry@),
                    ));
                    lemma_assoc_update(old_pairs, gi, old_pairs[gi].0, entry@);
                }
            },
            None => {
                self.entries.push((key, entry));
                proof {
                    assert(entry_pairs(self.entries@) =~= old_pairs.push((key@, entry@)));
                    lemma_assoc_push(old_pairs, key@, entry@);
                }
            },
        }
    }

    /// Record `stamp` for the bucket `key`, replacing any recorded time.
    fn put_attempt(&mut self, key: String, stamp: i64)
        requires
            old(self).wf(),
            stamp_ok(stamp as int),
        ensures
            final(self).wf(),
            final(self)@.attempts == old(self)@.attempts.insert(key@, stamp as int),
            final(self)@.entries == old(self)@.entries,
    {
        let ghost old_pairs = stamp_pairs(self.attempts@);
        match self.find_attempt(&key) {
            Some(i) => {
                let ghost gi = i as int;
                self.attempts[i] = (key, stamp);
                proof {
                    assert(stamp_pairs(self.attempts@) =~= old_pairs.update(
                        gi,
                        (old_pairs[gi].0, stamp as int),
                    ));
                    lemma_assoc_update(old_pairs, gi, old_pairs[gi].0, stamp as int);
                }
            },
            None => {
                self.attempts.push((key, stamp));
                proof {
                    assert(stamp_pairs(self.attempts@) =~= old_pairs.push((key@, stamp as int)));
                    lemma_assoc_push(old_pairs, key@, stamp as int);
                }
            },
        }
    }

    /// Read the entry under the key for `rooftop_id` and `endpoint` together
    /// with its age in seconds at time `now`; absent keys return `None`.
    pub fn get_at(&self, rooftop_id: &str, endpoint: &str, now: i64) -> (r: Option<
        (CacheEntry, i64),
    >)
        requires
            self.wf(),
            0 <= now < TIME_BOUND,
        ensures
            match r {
                Some(p) => {
                    &&& self@.entries.contains_key(spec_key(rooftop_id@, endpoint@))
                    &&& p.0@ == self@.entries[spec_key(rooftop_id@, endpoint@)]
                    &&& p.1 == now - p.0@.fetched_at
                },
                None => !self@.entries.contains_key(spec_key(rooftop_id@, endpoint@)),
            },
    {
        let key = cache_key(rooftop_id, endpoint);
        match self.find_entry(&key) {
            Some(i) => {
                let entry = self.entries[i].1.clone();
                proof {
                    lemma_assoc_at_found(entry_pairs(self.entries@), key@, i as int);
                }
                let age = now - entry.fetched_at;
                Some((entry, age))
            },
            None => None,
        }
    }

    /// Freshness of the entry under the key for `rooftop_id` and `endpoint`
    /// at time `now`: present and younger than `ttl_secs`.
    pub fn is_fresh_at(&self, rooftop_id: &str, endpoint: &str, ttl_secs: u64, now: i64) -> (r:
        bool)
        requires
            self.wf(),
            0 <= now < TIME_BOUND,
            ttl_secs < DUR_BOUND,
        ensures
            r == fresh_at(self@, spec_key(rooftop_id@, endpoint@), ttl_secs as int, now as int),
    {
        let key = cache_key(rooftop_id, endpoint);
        match self.find_entry(&key) {
            Some(i) => {
                proof {
                    lemma_assoc_at_found(entry_pairs(self.entries@), key@, i as int);
                }
                let age = now - self.entries[i].1.fetched_at;
                age >= 0 && age < ttl_secs as i64
            },
            None => false,
        }
    }

    /// Whether the admission interval for `bucket` has elapsed at `now`.
    pub fn can_fetch_at(&self, rooftop_id: &str, endpoint: &str, rate_limit_secs: u64, now: i64) -> (r:
        bool)
        requires
            self.wf(),
            0 <= now < TIME_BOUND,
            rate_limit_secs < DUR_BOUND,
        ensures
            r == admits_at(
                self@,
                spec_key(rooftop_id@, endpoint@),
                rate_limit_secs as int,
                now as int,
            ),
    {
        let key = cache_key(rooftop_id, endpoint);
        match self.find_attempt(&key) {
            Some(i) => {
                proof {
                    lemma_assoc_at_found(stamp_pairs(self.attempts@), key@, i as int);
                }
                let elapsed = now - self.attempts[i].1;
                elapsed >= rate_limit_secs as i64
            },
            None => true,
        }
    }

    /// Record an admitted upstream attempt for the bucket at time `now`.
    pub fn mark_attempt_at(&mut self, rooftop_id: &str, endpoint: &str, now: i64)
        requires
            old(self).wf(),
            0 <= now < TIME_BOUND,
        ensures
            final(self).wf(),
            final(self)@.attempts == old(self)@.attempts.insert(
                spec_key(rooftop_id@, endpoint@),
                now as int,
            ),
            final(self)@.entries == old(self)@.entries,
    {
        let key = cache_key(rooftop_id, endpoint);
        self.put_attempt(key, now);
    }

    /// Record a failed admitted attempt for the bucket at time `now`: the
    /// stored time is moved so that the next admission check against
    /// `rate_limit_secs` succeeds exactly once `cooldown_secs` have elapsed.
    pub fn mark_failed_attempt_at(
        &mut self,
        rooftop_id: &str,
        endpoint: &str,
        rate_limit_secs: u64,
        cooldown_secs: u64,
        now: i64,
    )
        requires
            old(self).wf(),
            0 <= now < TIME_BOUND,
            rate_limit_secs < DUR_BOUND,
            cooldown_secs < DUR_BOUND,
        ensures
            final(self).wf(),
            final(self)@.attempts == old(self)@.attempts.insert(
                spec_key(rooftop_id@, endpoint@),
                failed_stamp(now as int, rate_limit_secs as int, cooldown_secs as int),
            ),
            final(self)@.entries == old(self)@.entries,
    {
        let key = cache_key(rooftop_id, endpoint);
        let stamp = now + cooldown_secs as i64 - rate_limit_secs as i64;
        self.put_attempt(key, stamp);
    }

    /// Store a response under the key for `rooftop_id` and `endpoint`,
    /// stamped with fetch time `now`. Replaces any previous entry wholesale.
    pub fn set_at(
        &mut self,
        rooftop_id: &str,
        endpoint: &str,
        body: String,
        content_type: String,
        now: i64,
    )
        requires
            old(self).wf(),
            0 <= now < TIME_BOUND,
        ensures
            final(self).wf(),
            final(self)@.entries == old(self)@.entries.insert(
                spec_key(rooftop_id@, endpoint@),
                CacheEntryView { body: body@, content_type: content_type@, fetched_at: now as int },
            ),
            final(self)@.attempts == old(self)@.attempts,
    {
        let key = cache_key(rooftop_id, endpoint);
        let entry = CacheEntry { body, content_type, fetched_at: now };
        self.put_entry(key, entry);
    }

    /// Read the entry for `rooftop_id` and `endpoint` with its age at the
    /// current wall-clock time. The clock value is whatever the machine
    /// reports; everything else is fixed by `get_at`.
    pub fn get(&self, rooftop_id: &str, endpoint: &str) -> (r: Option<(CacheEntry, i64)>)
        requires
            self.wf(),
        ensures
            match r {
                Some(p) => {
                    &&& self@.entries.contains_key(spec_key(rooftop_id@, endpoint@))
                    &&& p.0@ == self@.entries[spec_key(rooftop_id@, endpoint@)]
                    // the age corresponds to reading the clock at some
                    // moment within the supported range
                    &&& 0 <= p.1 + p.0@.fetched_at < TIME_BOUND
                },
                None => !self@.entries.contains_key(spec_key(rooftop_id@, endpoint@)),
            },
    {
        let now = clamped_now();
        self.get_at(rooftop_id, endpoint, now)
    }

    /// Freshness at the current wall-clock time; see `is_fresh_at`.
    pub fn is_fresh(&self, rooftop_id: &str, endpoint: &str, ttl_secs: u64) -> (r: bool)
        requires
            self.wf(),
            ttl_secs < DUR_BOUND,
        ensures
            exists|now: int|
                0 <= now < TIME_BOUND && r == fresh_at(
                    self@,
                    spec_key(rooftop_id@, endpoint@),
                    ttl_secs as int,
                    now,
                ),
    {
        let now = clamped_now();
        self.is_fresh_at(rooftop_id, endpoint, ttl_secs, now)
    }

    /// Admission at the current wall-clock time; see `can_fetch_at`.
    pub fn can_fetch(&self, rooftop_id: &str, endpoint: &str, rate_limit_secs: u64) -> (r: bool)
        requires
            self.wf(),
            rate_limit_secs < DUR_BOUND,
        ensures
            exists|now: int|
                0 <= now < TIME_BOUND && r == admits_at(
                    self@,
                    spec_key(rooftop_id@, endpoint@),
                    rate_limit_secs as int,
                    now,
                ),
    {
        let now = clamped_now();
        self.can_fetch_at(rooftop_id, endpoint, rate_limit_secs, now)
    }

    /// Record an attempt at the current wall-clock time; see
    /// `mark_attempt_at`.
    pub fn mark_attempt(&mut self, rooftop_id: &str, endpoint: &str)
        requires
            old(self).wf(),
        ensures
            final(self).wf(),
            final(self)@.entries == old(self)@.entries,
            exists|now: int|
                0 <= now < TIME_BOUND && final(self)@.attempts == old(self)@.attempts.insert(
                    spec_key(rooftop_id@, endpoint@),
                    now,
                ),
    {
        let now = clamped_now();
        self.mark_attempt_at(rooftop_id, endpoint, now);
    }

    /// Record a failed attempt at the current wall-clock time; see
    /// `mark_failed_attempt_at`.
    pub fn mark_failed_attempt(
        &mut self,
        rooftop_id: &str,
        endpoint: &str,
        rate_limit_secs: u64,
        cooldown_secs: u64,
    )
        requires
            old(self).wf(),
            rate_limit_secs < DUR_BOUND,
            cooldown_secs < DUR_BOUND,
        ensures
            final(self).wf(),
            final(self)@.entries == old(self)@.entries,
            exists|now: int|
                0 <= now < TIME_BOUND && final(self)@.attempts == old(self)@.attempts.insert(
                    spec_key(rooftop_id@, endpoint@),
                    failed_stamp(now, rate_limit_secs as int, cooldown_secs as int),
                ),
    {
        let now = clamped_now();
        self.mark_failed_attempt_at(rooftop_id, endpoint, rate_limit_secs, cooldown_secs, now);
    }

    /// Store a response stamped with the current wall-clock time; see
    /// `set_at`.
    pub fn set(&mut self, rooftop_id: &str, endpoint: &str, body: String, content_type: String)
        requires
            old(self).wf(),
        ensures
            final(self).wf(),
            final(self)@.attempts == old(self)@.attempts,
            exists|now: int|
                0 <= now < TIME_BOUND && final(self)@.entries == old(self)@.entries.insert(
                    spec_key(rooftop_id@, endpoint@),
                    CacheEntryView { body: body@, content_type: content_type@, fetched_at: now },
                ),
    {
        let now = clamped_now();
        self.set_at(rooftop_id, endpoint, body, content_type, now);
    }

    /// Number of distinct cached keys.
    pub fn entry_count(&self) -> (r: usize)
        requires
            self.wf(),
        ensures
            r == self@.entries.dom().len(),
    {
        proof {
            lemma_map_of_len(entry_pairs(self.entries@));
        }
        self.entries.len()
    }

    /// The full entry list, for writing to stable storage. Rebuilding a
    /// store from it restores exactly the current entries.
    #[verifier::loop_isolation(false)]
    pub fn snapshot(&self) -> (r: Vec<(String, CacheEntry)>)
        requires
            self.wf(),
        ensures
            keys_distinct(entry_pairs(r@)),
            map_of(entry_pairs(r@)) == self@.entries,
            folded_map(entry_pairs(r@)) == self@.entries,
            forall|i: int| 0 <= i < r@.len() ==> entry_time_ok(#[trigger] r@[i].1.fetched_at as int),
    {
        let mut out: Vec<(String, CacheEntry)> = Vec::new();
        let mut i: usize = 0;
        while i < self.entries.len()
            invariant
                i <= self.entries@.len(),
                entry_pairs(out@) =~= entry_pairs(self.entries@).take(i as int),
                forall|j: int| 0 <= j < out@.len() ==> entry_time_ok(#[trigger] out@[j].1.fetched_at as int),
            decreases self.entries@.len() - i,
        {
            let pair = (self.entries[i].0.clone(), self.entries[i].1.clone());
            out.push(pair);
            proof {
                assert(entry_pairs(out@) =~= entry_pairs(self.entries@).take(i + 1 as int));
            }
            i += 1;
        }
        proof {
            assert(entry_pairs(out@) =~= entry_pairs(self.entries@));
            lemma_folded_map_of(entry_pairs(out@));
        }
        out
    }

    /// Rebuild a store from a saved entry list. Later pairs win when a key
    /// repeats; the attempt tracker starts empty (it is deliberately not
    /// persisted: forgetting attempt times only makes the service more
    /// permissive for one interval, never incorrect).
    #[verifier::loop_isolation(false)]
    pub fn from_snapshot(entries: Vec<(String, CacheEntry)>) -> (r: Self)
        requires
            forall|i: int|
                0 <= i < entries@.len() ==> entry_time_ok(#[trigger] entries@[i].1.fetched_at as int),
        ensures
            r.wf(),
            r@.entries == folded_map(entry_pairs(entries@)),
            r@.attempts == Map::<Seq<char>, int>::empty(),
    {
        let mut c = ProxyCache::new();
        let mut i: usize = 0;
        while i < entries.len()
            invariant
                i <= entries@.len(),
                c.wf(),
                c@.entries == folded_map(entry_pairs(entries@).take(i as int)),
                c@.attempts == Map::<Seq<char>, int>::empty(),
            decreases entries@.len() - i,
        {
            let key = entries[i].0.clone();
            let entry = entries[i].1.clone();
            c.put_entry(key, entry);
            proof {
                let p = entry_pairs(entries@);
                assert(p.take(i + 1 as int).drop_last() =~= p.take(i as int));
                assert(p.take(i + 1 as int).last() == p[i as int]);
            }
            i += 1;
        }
        proof {
            assert(entry_pairs(entries@).take(entries@.len() as int) =~= entry_pairs(entries@));
        }
        c
    }
}

/// A key that holds no entry is never fresh, for any TTL and at any time.
/// Together with `get_at`'s contract (absent keys return `None`), this is
/// the behaviour of a never-fetched key.
pub proof fn lemma_absent_key_never_fresh(cv: CacheView, key: Seq<char>, ttl: int, now: int)
    requires
        !cv.entries.contains_key(key),
    ensures
        !fresh_at(cv, key, ttl, now),
{
}

/// Immediately after an entry is stored at time `now`, its age is zero and
/// it is fresh for every positive TTL.
pub proof fn lemma_stored_entry_fresh(
    cv: CacheView,
    key: Seq<char>,
    body: Seq<char>,
    content_type: Seq<char>,
    ttl: int,
    now: int,
)
    requires
        ttl > 0,
    ensures
        ({
            let cv2 = CacheView {
                entries: cv.entries.insert(
                    key,
                    CacheEntryView { body, content_type, fetched_at: now },
                ),
                attempts: cv.attempts,
            };
            &&& now - cv2.entries[key].fetched_at == 0
            &&& fresh_at(cv2, key, ttl, now)
        }),
{
}

/// An entry is fresh from its fetch time up to, and excluding, the instant
/// its age reaches the TTL.
pub proof fn lemma_freshness_boundary(cv: CacheView, key: Seq<char>, ttl: int, now: int)
    requires
        cv.entries.contains_key(key),
    ensures
        cv.entries[key].fetched_at <= now < cv.entries[key].fetched_at + ttl ==> fresh_at(
            cv,
            key,
            ttl,
            now,
        ),
        now >= cv.entries[key].fetched_at + ttl ==> !fresh_at(cv, key, ttl, now),
{
}

/// Admission around `mark_attempt`: a bucket never attempted admits; right
/// after an attempt at `now` it refuses every positive interval but still
/// admits a zero interval; and it admits again exactly once the interval has
/// elapsed.
pub proof fn lemma_admission_after_attempt(
    cv: CacheView,
    bucket: Seq<char>,
    interval: int,
    now: int,
)
    ensures
        !cv.attempts.contains_key(bucket) ==> admits_at(cv, bucket, interval, now),
        ({
            let cv2 = CacheView {
                entries: cv.entries,
                attempts: cv.attempts.insert(bucket, now),
            };
            &&& interval > 0 ==> !admits_at(cv2, bucket, interval, now)
            &&& interval == 0 ==> admits_at(cv2, bucket, interval, now)
            &&& forall|later: int|
                later >= now + interval ==> admits_at(cv2, bucket, interval, later)
            &&& forall|later: int|
                now <= later < now + interval ==> !admits_at(cv2, bucket, interval, later)
        }),
{
}

/// After `mark_failed_attempt` with override cool-down `cooldown` at time
/// `now`, the bucket refuses admission against the steady-state `interval`
/// until `cooldown` seconds have elapsed, and admits from then on —
/// whatever `interval` itself is.
pub proof fn lemma_failed_attempt_cooldown(
    cv: CacheView,
    bucket: Seq<char>,
    interval: int,
    cooldown: int,
    now: int,
)
    ensures
        ({
            let cv2 = CacheView {
                entries: cv.entries,
                attempts: cv.attempts.insert(bucket, failed_stamp(now, interval, cooldown)),
            };
            &&& forall|t: int| now <= t < now + cooldown ==> !admits_at(cv2, bucket, interval, t)
            &&& forall|t: int| t >= now + cooldown ==> admits_at(cv2, bucket, interval, t)
        }),
{
}

/// Restoring a store from any snapshot of another store yields the same
/// entry map — bodies, content types and fetch timestamps included. The
/// premises are exactly what `snapshot` and `from_snapshot` ensure.
pub proof fn lemma_snapshot_restores_entries(
    original: CacheView,
    snap: Seq<(String, CacheEntry)>,
    restored: CacheView,
)
    requires
        folded_map(entry_pairs(snap)) == original.entries,
        restored.entries == folded_map(entry_pairs(snap)),
    ensures
        restored.entries == original.entries,
{
}

/// An association sequence with no pairs stands for the empty map.
proof fn lemma_map_of_no_keys<V>(s: Seq<(Seq<char>, V)>)
    requires
        s.len() == 0,
    ensures
        map_of(s) == Map::<Seq<char>, V>::empty(),
{
    assert_maps_equal!(map_of(s), Map::<Seq<char>, V>::empty(), key => {
        if assoc_has(s, key) {
            let w = choose|w: int| 0 <= w < s.len() && s[w].0 == key;
            assert(false);
        }
    });
}

} // verus!
