//! A sliding-window rate limiter: at most `max_calls` calls in any window of
//! `window_secs` seconds. Times are milliseconds on a monotonic clock; the
//! caller reads the clock and sleeps, the limiter decides.

use vstd::prelude::*;

verus! {

/// What a limiter holds: the times of the calls still in the window, the
/// budget and the window length.
pub struct RateLimiterView {
    pub calls: Seq<u64>,
    pub max_calls: usize,
    pub window_secs: u64,
}

/// A per-bucket call budget over a sliding window.
pub struct RateLimiter {
    calls: Vec<u64>,
    max_calls: usize,
    window_secs: u64,
}

impl View for RateLimiter {
    type V = RateLimiterView;

    closed spec fn view(&self) -> RateLimiterView {
        RateLimiterView { calls: self.calls@, max_calls: self.max_calls, window_secs: self.window_secs }
    }
}

/// Milliseconds from `t` to `now`, zero when `t` is later (the clock's
/// `duration_since` saturates).
pub open spec fn elapsed_ms(t: u64, now: u64) -> nat {
    if now >= t {
        (now - t) as nat
    } else {
        0
    }
}

/// A call made at `t` is still inside a window of `window_secs` seconds at
/// `now`: less than the window has elapsed since.
pub open spec fn in_window(t: u64, now: u64, window_secs: u64) -> bool {
    elapsed_ms(t, now) < window_secs * 1000
}

/// The predicate "still in the window at `now`".
pub open spec fn still_in_window(now: u64, window_secs: u64) -> spec_fn(u64) -> bool {
    |t: u64| in_window(t, now, window_secs)
}

/// The limiter after dropping the calls that left the window by `now`.
pub open spec fn pruned(v: RateLimiterView, now: u64) -> RateLimiterView {
    RateLimiterView { calls: v.calls.filter(still_in_window(now, v.window_secs)), ..v }
}

/// How long to sleep at `now` before the next call, in milliseconds: none
/// while the budget is not used up; otherwise until the oldest call leaves the
/// window (100 ms if it already has).
pub open spec fn wait_for(v: RateLimiterView, now: u64) -> Option<nat> {
    if v.calls.len() >= v.max_calls {
        let e = elapsed_ms(v.calls[0], now);
        if e < v.window_secs * 1000 {
            Some((v.window_secs * 1000 - e) as nat)
        } else {
            Some(100)
        }
    } else {
        None
    }
}

/// The limiter after a call made at `now`.
pub open spec fn recorded(v: RateLimiterView, now: u64) -> RateLimiterView {
    RateLimiterView { calls: v.calls.push(now), ..v }
}

/// No recorded call is later than `now`.
pub open spec fn none_after(calls: Seq<u64>, now: u64) -> bool {
    forall|i: int| 0 <= i < calls.len() ==> #[trigger] calls[i] <= now
}

impl RateLimiter {
    /// A limiter allowing `max_calls` calls per `window_secs` seconds, with no
    /// call made yet.
    pub fn new(max_calls: usize, window_secs: u64) -> (r: Self)
        ensures
            r@ == (RateLimiterView { calls: Seq::empty(), max_calls, window_secs }),
    {
        RateLimiter { calls: Vec::new(), max_calls, window_secs }
    }

    /// The number of calls allowed per window.
    pub fn max_calls(&self) -> (n: usize)
        ensures
            n == self@.max_calls,
    {
        self.max_calls
    }

    /// The number of calls still counted against the budget.
    pub fn call_count(&self) -> (n: usize)
        ensures
            n == self@.calls.len(),
    {
        self.calls.len()
    }

    /// Forgets the calls that left the window by `now_ms`, keeping the others
    /// in order.
    pub fn prune(&mut self, now_ms: u64)
        ensures
            final(self)@ == pruned(old(self)@, now_ms),
    {
        let ghost pred = still_in_window(now_ms, self.window_secs);
        let mut kept: Vec<u64> = Vec::new();
        let mut i: usize = 0;
        while i < self.calls.len()
            invariant
                i <= self.calls.len(),
                pred == still_in_window(now_ms, self.window_secs),
                kept@ == self.calls@.take(i as int).filter(pred),
            decreases self.calls.len() - i,
        {
            let t = self.calls[i];
            let e: u64 = if now_ms >= t { now_ms - t } else { 0 };
            proof {
                assert(self.calls@.take(i + 1) =~= self.calls@.take(i as int).push(t));
                self.calls@.take(i as int).lemma_filter_push(t, pred);
            }
            if e / 1000 < self.window_secs {
                kept.push(t);
            }
            i = i + 1;
        }
        proof {
            assert(self.calls@.take(self.calls@.len() as int) =~= self.calls@);
        }
        self.calls = kept;
    }

    /// How many milliseconds to sleep at `now_ms` before the next call, if
    /// any. The budget must allow calls or a call must be on record (with a
    /// budget of zero and no call there is no oldest call to wait for).
    pub fn wait_ms(&self, now_ms: u64) -> (w: Option<u128>)
        requires
            self@.max_calls > 0 || self@.calls.len() > 0,
        ensures
            match w {
                Some(ms) => wait_for(self@, now_ms) == Some(ms as nat),
                None => wait_for(self@, now_ms) is None,
            },
    {
        if self.calls.len() >= self.max_calls {
            let oldest = self.calls[0];
            let e: u64 = if now_ms >= oldest { now_ms - oldest } else { 0 };
            let window_ms: u128 = self.window_secs as u128 * 1000;
            if (e as u128) < window_ms {
                Some(window_ms - e as u128)
            } else {
                Some(100)
            }
        } else {
            None
        }
    }

    /// Counts a call made at `now_ms`.
    pub fn record(&mut self, now_ms: u64)
        ensures
            final(self)@ == recorded(old(self)@, now_ms),
    {
        self.calls.push(now_ms);
    }
}

/// The filter keeps no more than it is given.
proof fn lemma_filter_not_longer(s: Seq<u64>, p: spec_fn(u64) -> bool)
    ensures
        s.filter(p).len() <= s.len(),
{
    s.lemma_filter_len(p);
}

/// Filtering a sequence whose first element fails the predicate keeps fewer
/// elements than the sequence has.
proof fn lemma_filter_drops_first(s: Seq<u64>, p: spec_fn(u64) -> bool)
    requires
        s.len() > 0,
        !p(s[0]),
    ensures
        s.filter(p).len() < s.len(),
{
    let first = seq![s[0]];
    let rest = s.skip(1);
    assert(s =~= first + rest);
    Seq::filter_distributes_over_add(first, rest, p);
    reveal_with_fuel(Seq::filter, 2);
    assert(first.drop_last() =~= Seq::<u64>::empty());
    assert(first.filter(p) =~= Seq::<u64>::empty());
    lemma_filter_not_longer(rest, p);
}

/// Sleeping for the wait the limiter asks for frees a slot: once that much
/// time has passed, dropping the calls that left the window removes at least
/// the oldest one.
pub proof fn law_wait_frees_a_slot(v: RateLimiterView, now: u64, later: u64)
    requires
        v.calls.len() > 0,
        none_after(v.calls, now),
        wait_for(v, now) is Some,
        later >= now + wait_for(v, now)->0,
    ensures
        pruned(v, later).calls.len() < v.calls.len(),
{
    assert(v.calls[0] <= now);
    assert(!in_window(v.calls[0], later, v.window_secs));
    lemma_filter_drops_first(v.calls, still_in_window(later, v.window_secs));
}

/// The limiter keeps its promise: a caller that drops expired calls, sleeps
/// as long as it is told when the budget is used up, drops expired calls
/// again and then records its call never has more than `max_calls` calls in
/// the window.
pub proof fn law_budget_is_kept(v: RateLimiterView, now: u64, later: u64)
    requires
        v.max_calls > 0,
        v.calls.len() <= v.max_calls,
        none_after(v.calls, now),
        now <= later,
        wait_for(pruned(v, now), now) matches Some(w) ==> later >= now + w,
    ensures
        ({
            let p = pruned(v, now);
            let q = if wait_for(p, now) is Some {
                pruned(p, later)
            } else {
                p
            };
            recorded(q, later).calls.len() <= v.max_calls
        }),
{
    let pred = still_in_window(now, v.window_secs);
    let p = pruned(v, now);
    lemma_filter_not_longer(v.calls, pred);
    if wait_for(p, now) is Some {
        assert(p.calls.len() >= v.max_calls);
        assert forall|i: int| 0 <= i < p.calls.len() implies #[trigger] p.calls[i] <= now by {
            assert(p.calls.contains(p.calls[i]));
            v.calls.lemma_filter_contains_rev(pred, p.calls[i]);
        }
        law_wait_frees_a_slot(p, now, later);
    }
}

} // verus!
