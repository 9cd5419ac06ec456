//! The outbound-call throttle: at most `limit` requests per fixed window,
//! shared by every caller of the RPC client.
//!
//! Time is handed in by the caller; the decision whether a request may go
//! out now, and the bookkeeping behind it, are taken here.

use vstd::prelude::*;

verus! {

/// A fixed-window request throttle.
pub struct RateLimiter {
    limit: u32,
    window_len_ms: u64,
    window_start_ms: u64,
    used: u32,
}

impl RateLimiter {
    /// No more grants are ever recorded than the window admits.
    #[verifier::type_invariant]
    spec fn wf(self) -> bool {
        self.used <= self.limit
    }

    /// The configured ceiling: grants per window.
    pub closed spec fn limit(self) -> u32 {
        self.limit
    }

    /// The length of one window, in milliseconds.
    pub closed spec fn window_len_ms(self) -> u64 {
        self.window_len_ms
    }

    /// When the current window began.
    pub closed spec fn window_start_ms(self) -> u64 {
        self.window_start_ms
    }

    /// How many grants the current window has seen.
    pub closed spec fn used(self) -> u32 {
        self.used
    }

    /// Whether `now_ms` still falls into the current window.
    pub open spec fn in_window(self, now_ms: u64) -> bool {
        now_ms >= self.window_start_ms() && now_ms - self.window_start_ms()
            < self.window_len_ms()
    }

    /// A fresh throttle whose first window starts at `now_ms`, with nothing
    /// used yet.
    pub fn new(limit: u32, window_len_ms: u64, now_ms: u64) -> (t: RateLimiter)
        ensures
            t.limit() == limit,
            t.window_len_ms() == window_len_ms,
            t.window_start_ms() == now_ms,
            t.used() == 0,
    {
        RateLimiter { limit, window_len_ms, window_start_ms: now_ms, used: 0 }
    }

    /// Ask to send one request at `now_ms`.  Outside the current window a
    /// new window starts at `now_ms`; inside it, the request is granted
    /// exactly while fewer than `limit` grants were given, so no window
    /// ever sees more than `limit` of them.
    pub fn try_acquire(&mut self, now_ms: u64) -> (granted: bool)
        ensures
            final(self).limit() == old(self).limit(),
            final(self).window_len_ms() == old(self).window_len_ms(),
            old(self).in_window(now_ms) ==> final(self).window_start_ms() == old(
                self,
            ).window_start_ms(),
            !old(self).in_window(now_ms) ==> ({
                &&& final(self).window_start_ms() == now_ms
                &&& granted == (0 < old(self).limit())
                &&& final(self).used() == (if granted {
                    1u32
                } else {
                    0u32
                })
            }),
            old(self).in_window(now_ms) ==> ({
                &&& granted == (old(self).used() < old(self).limit())
                &&& final(self).used() == (if granted {
                    (old(self).used() + 1) as u32
                } else {
                    old(self).used()
                })
            }),
            final(self).used() <= final(self).limit(),
    {
        proof {
            use_type_invariant(&*self);
        }
        if now_ms < self.window_start_ms || now_ms - self.window_start_ms
            >= self.window_len_ms {
            self.window_start_ms = now_ms;
            if 0 < self.limit {
                self.used = 1;
                true
            } else {
                self.used = 0;
                false
            }
        } else if self.used < self.limit {
            self.used = self.used + 1;
            true
        } else {
            false
        }
    }
}

} // verus!
