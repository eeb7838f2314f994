//! The plan-limit cache: one value per tool, refetched when its time to live has run out, and
//! kept whenever a fetch fails (the endpoints are undocumented and may fail at any time).

use vstd::prelude::*;
use std::time::{Duration, Instant};

verus! {

/// std's monotonic clock reading, carried opaquely.
#[verifier::external_type_specification]
#[verifier::external_body]
pub struct ExInstant(std::time::Instant);

/// `Instant::now()`: nothing is stated of the reading.
#[verifier::external_body]
pub(crate) fn now() -> Instant {
    Instant::now()
}

/// `Instant::elapsed`: how long ago `at` was. It depends on the clock, so nothing is stated of
/// the reading.
#[verifier::external_body]
pub(crate) fn elapsed(at: &Instant) -> Duration {
    at.elapsed()
}

/// `Duration::as_nanos`: the length of `d` in nanoseconds. `Duration` is opaque here, so the
/// number is not tied to `d` by any clause; the rules that use it compare the numbers.
#[verifier::external_body]
pub(crate) fn as_nanos(d: Duration) -> u128 {
    d.as_nanos()
}

struct Entry<T> {
    fetched_at: Instant,
    limits: T,
}

/// What a refresh that called `fetch` leaves: the value fetched, stored (a clone of it) and
/// returned; or, when the fetch gave `None`, the cache as it was and a clone of the last value
/// stored, if any.
pub open spec fn after_fetch<T: Clone>(fetched: Option<T>, before: Option<T>, after: Option<T>, r: Option<T>) -> bool {
    match fetched {
        Some(x) => r == Some(x) && (after matches Some(s) && cloned(x, s)),
        None => after == before && match before {
            Some(v) => r matches Some(c) && cloned(v, c),
            None => r is None,
        },
    }
}

/// What a refresh leaves when its stored value is `age` nanoseconds old and the time to live
/// is `limit` nanoseconds: a stored value younger than the limit is served (a clone of it) and
/// the cache is left as it was, without a fetch; otherwise `fetch` is called once and
/// [`after_fetch`] holds of what it gave.
pub open spec fn refresh_result<T: Clone, F: FnOnce() -> Option<T>>(
    age: u128,
    limit: u128,
    fetch: F,
    before: Option<T>,
    after: Option<T>,
    r: Option<T>,
) -> bool {
    if before is Some && age < limit {
        after == before && (r matches Some(c) && cloned(before->Some_0, c))
    } else {
        exists|fetched: Option<T>|
            #![trigger call_ensures(fetch, (), fetched)]
            call_ensures(fetch, (), fetched) && after_fetch(fetched, before, after, r)
    }
}

/// One cached plan-limits value. `T` is the limits type of a single tool.
pub struct LimitsCache<T> {
    entry: Option<Entry<T>>,
}

impl<T: Clone> LimitsCache<T> {
    /// The value the cache holds, if any.
    pub closed spec fn stored(self) -> Option<T> {
        match self.entry {
            Some(e) => Some(e.limits),
            None => None,
        }
    }

    /// An empty cache.
    pub fn new() -> (r: Self)
        ensures
            r.stored() is None,
    {
        LimitsCache { entry: None }
    }

    /// The last value stored, however old: a clone of it, or `None` before the first
    /// successful fetch.
    pub fn last(&self) -> (r: Option<T>)
        ensures
            match self.stored() {
                Some(v) => r matches Some(c) && cloned(v, c),
                None => r is None,
            },
    {
        match &self.entry {
            Some(e) => Some(e.limits.clone()),
            None => None,
        }
    }

    /// Drops the stored value, so that the next `refresh` fetches again (after a switch of
    /// account, the cached limits belong to the account that left).
    pub fn forget(&mut self)
        ensures
            final(self).stored() is None,
    {
        self.entry = None;
    }

    /// The stored value while it is younger than `ttl`; otherwise the result of `fetch`,
    /// which is stored (a clone of it) when it is `Some`, and when it is `None` the last value
    /// stored, kept as it was. How old the stored value is, and `ttl` in nanoseconds, are read
    /// from std; the rule applied to those readings is [`refresh_result`], as
    /// [`LimitsCache::serve_or_fetch`] states for every age.
    ///
    /// Laws: a failed fetch never loses the last value; with nothing stored (after `new` or
    /// `forget`), the answer is always what `fetch` gave.
    pub fn refresh<F: FnOnce() -> Option<T>>(&mut self, ttl: Duration, fetch: F) -> (r: Option<T>)
        requires
            call_requires(fetch, ()),
        ensures
            exists|age: u128, limit: u128|
                #[trigger] refresh_result(
                    age,
                    limit,
                    fetch,
                    old(self).stored(),
                    final(self).stored(),
                    r,
                ),
            old(self).stored() is None ==> exists|fetched: Option<T>|
                #![trigger call_ensures(fetch, (), fetched)]
                call_ensures(fetch, (), fetched) && r == fetched,
            old(self).stored() is Some ==> final(self).stored() is Some,
    {
        let age = self.age();
        let limit = as_nanos(ttl);
        self.serve_or_fetch(age, limit, fetch)
    }

    /// The rest of `refresh`, given how old the stored value is and the time to live, both in
    /// nanoseconds: a stored value younger than `limit` is served (a clone of it) and the cache
    /// is left as it was, without a fetch; otherwise `fetch` is called once, and its value is
    /// stored and returned, or, when it gives `None`, the last value stored is returned and
    /// kept.
    ///
    /// Law: within the time to live, the limits are not fetched again.
    pub fn serve_or_fetch<F: FnOnce() -> Option<T>>(&mut self, age: u128, limit: u128, fetch: F) -> (r: Option<T>)
        requires
            call_requires(fetch, ()),
        ensures
            refresh_result(age, limit, fetch, old(self).stored(), final(self).stored(), r),
    {
        if age < limit {
            if let Some(e) = &self.entry {
                return Some(e.limits.clone());
            }
        }
        match fetch() {
            Some(limits) => {
                self.store(limits.clone());
                Some(limits)
            },
            None => self.last(),
        }
    }

    /// Stores `limits`, fetched just now.
    fn store(&mut self, limits: T)
        ensures
            final(self).stored() == Some(limits),
    {
        self.entry = Some(Entry { fetched_at: now(), limits });
    }

    /// How old the stored value is, in nanoseconds, as the clock reads it now (0 when nothing is
    /// stored, where the age plays no part).
    fn age(&self) -> (r: u128)
        ensures
            self.stored() is None ==> r == 0,
    {
        match &self.entry {
            Some(e) => as_nanos(elapsed(&e.fetched_at)),
            None => 0,
        }
    }
}

impl<T: Clone> Default for LimitsCache<T> {
    /// An empty cache.
    fn default() -> (r: Self)
        ensures
            r.stored() is None,
    {
        LimitsCache::new()
    }
}

} // verus!
