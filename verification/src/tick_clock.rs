//! Fixed-rate tick clock: converts elapsed wall time into tick indices.
//!
//! The clock only ever looks at the time elapsed since its start. Tick 0 is
//! due at the start itself, tick `k` once `k` tick lengths have elapsed. A
//! poll hands out every tick that has become due since the previous poll,
//! oldest first, so a late poll catches up instead of skipping.
//!
//! Wall time is a count of seconds and nanoseconds since the epoch, as the
//! `time` crate reports it, and the time between two readings is measured
//! by that crate.

use vstd::prelude::*;
use vstd::arithmetic::div_mod::lemma_div_is_ordered;

verus! {

/// Default length of one simulation tick in milliseconds (20 ticks per second).
pub const DEFAULT_TICK_MS: u64 = 50;

/// Nanoseconds in a second.
pub const NSEC_PER_SEC: i32 = 1_000_000_000;

/// The longest span of time, in whole seconds, that is measured exactly.
/// Its milliseconds still fit in 63 bits.
pub const MAX_SPAN_SEC: i64 = 9_223_372_036_854_774;

/// The most milliseconds that are ever reported as elapsed: those of the
/// longest span that is measured exactly. A longer span counts as this one.
pub const MAX_ELAPSED_MS: u64 = 9_223_372_036_854_774_000;

/// A reading of the wall clock: whole seconds since the epoch, negative
/// before it, and the nanoseconds past that second.
#[derive(Clone, Copy, Debug, PartialEq, Eq, Structural)]
pub struct Timestamp {
    pub sec: i64,
    pub nsec: i32,
}

impl Timestamp {
    /// The nanoseconds stay within a second.
    pub open spec fn wf(self) -> bool {
        0 <= self.nsec < NSEC_PER_SEC
    }

    /// Nanoseconds since the epoch.
    pub open spec fn nanos(self) -> int {
        self.sec * 1_000_000_000 + self.nsec
    }

    /// The reading `nsec` nanoseconds past second `sec`, or nothing when
    /// the nanoseconds do not stay within a second.
    pub fn new(sec: i64, nsec: i32) -> (r: Option<Timestamp>)
        ensures
            r == if (Timestamp { sec, nsec }).wf() {
                Some(Timestamp { sec, nsec })
            } else {
                None
            },
    {
        if 0 <= nsec && nsec < NSEC_PER_SEC {
            Some(Timestamp { sec, nsec })
        } else {
            None
        }
    }

    /// The epoch itself.
    pub fn epoch() -> (t: Timestamp)
        ensures
            t.wf(),
            t == (Timestamp { sec: 0, nsec: 0 }),
    {
        Timestamp { sec: 0, nsec: 0 }
    }
}

/// Whole milliseconds from `start` to `now`, rounded towards zero; negative
/// when `now` is the earlier reading.
pub open spec fn millis_between(start: Timestamp, now: Timestamp) -> int {
    let ns = now.nanos() - start.nanos();
    if ns >= 0 {
        ns / 1_000_000
    } else {
        -((-ns) / 1_000_000)
    }
}

/// Measures the time from `start` to `now` with the `time` crate: the two
/// readings are subtracted as `time::Timespec` values and the resulting
/// `time::Duration` is asked for `num_milliseconds()`. That subtraction
/// keeps the exact difference in seconds and nanoseconds, and
/// `num_milliseconds()` gives its whole milliseconds, rounded towards zero.
/// Both readings must be well-formed, as `Timespec::new` panics on
/// nanoseconds outside a second, and no more than `MAX_SPAN_SEC` seconds
/// apart, as a difference of more than 63 bits of milliseconds is out of the
/// range of a `Duration`.
#[verifier::external_body]
fn duration_millis(start: Timestamp, now: Timestamp) -> (ms: i64)
    requires
        start.wf(),
        now.wf(),
        -MAX_SPAN_SEC <= now.sec - start.sec <= MAX_SPAN_SEC,
    ensures
        ms == millis_between(start, now),
{
    let from = time::Timespec::new(start.sec, start.nsec);
    let to = time::Timespec::new(now.sec, now.nsec);
    (to - from).num_milliseconds()
}

/// Milliseconds from `start` to `now`; a time before the start counts as
/// the start, and a span of more than `MAX_ELAPSED_MS` as that many.
pub open spec fn elapsed_ms(start: Timestamp, now: Timestamp) -> u64 {
    if millis_between(start, now) <= 0 {
        0
    } else if millis_between(start, now) >= MAX_ELAPSED_MS {
        MAX_ELAPSED_MS
    } else {
        millis_between(start, now) as u64
    }
}

/// The highest tick index due at `now` for a clock started at `start` with
/// one tick every `tick_ms` milliseconds.
pub open spec fn tick_index(start: Timestamp, now: Timestamp, tick_ms: u64) -> u64 {
    (elapsed_ms(start, now) / tick_ms) as u64
}

/// Computes `elapsed_ms`.
pub fn elapsed(start: Timestamp, now: Timestamp) -> (ms: u64)
    requires
        start.wf(),
        now.wf(),
    ensures
        ms == elapsed_ms(start, now),
        ms <= MAX_ELAPSED_MS,
{
    let span: i128 = now.sec as i128 - start.sec as i128;
    if span > MAX_SPAN_SEC as i128 {
        MAX_ELAPSED_MS
    } else if span < -(MAX_SPAN_SEC as i128) {
        0
    } else {
        let signed: i64 = duration_millis(start, now);
        if signed <= 0 {
            0
        } else if signed as u64 >= MAX_ELAPSED_MS {
            MAX_ELAPSED_MS
        } else {
            signed as u64
        }
    }
}

/// Computes `tick_index`.
pub fn tick_at(start: Timestamp, now: Timestamp, tick_ms: u64) -> (tick: u64)
    requires
        start.wf(),
        now.wf(),
        tick_ms > 0,
    ensures
        tick == tick_index(start, now, tick_ms),
        tick <= MAX_ELAPSED_MS,
{
    elapsed(start, now) / tick_ms
}

/// More time has elapsed at a later reading than at an earlier one.
pub proof fn lemma_elapsed_monotonic(start: Timestamp, t1: Timestamp, t2: Timestamp)
    requires
        start.wf(),
        t1.wf(),
        t2.wf(),
        t1.nanos() <= t2.nanos(),
    ensures
        elapsed_ms(start, t1) <= elapsed_ms(start, t2),
{
    let n1 = t1.nanos() - start.nanos();
    let n2 = t2.nanos() - start.nanos();
    if n1 >= 0 {
        lemma_div_is_ordered(n1, n2, 1_000_000);
    }
}

/// The clock never runs backwards: a later time is never due a lower tick.
pub proof fn lemma_tick_monotonic(start: Timestamp, t1: Timestamp, t2: Timestamp, tick_ms: u64)
    requires
        start.wf(),
        t1.wf(),
        t2.wf(),
        tick_ms > 0,
        t1.nanos() <= t2.nanos(),
    ensures
        tick_index(start, t1, tick_ms) <= tick_index(start, t2, tick_ms),
{
    lemma_elapsed_monotonic(start, t1, t2);
    lemma_div_is_ordered(
        elapsed_ms(start, t1) as int,
        elapsed_ms(start, t2) as int,
        tick_ms as int,
    );
}

/// A run of consecutive ticks: `first`, `first + 1`, and so on, `count` of
/// them.
#[derive(Clone, Copy, Debug, PartialEq, Eq, Structural)]
pub struct TickSpan {
    pub first: u64,
    pub count: u64,
}

impl TickSpan {
    /// The ticks of the span, in ascending order.
    pub open spec fn ticks(self) -> Seq<u64> {
        Seq::new(self.count as nat, |k: int| (self.first + k) as u64)
    }

    /// Whether the span holds no tick.
    pub fn is_empty(&self) -> (e: bool)
        ensures
            e == (self.ticks().len() == 0),
    {
        self.count == 0
    }
}

/// A tick clock together with the next tick it has yet to hand out.
#[derive(Clone, Copy, Debug, PartialEq, Eq, Structural)]
pub struct TickClock {
    /// Time of tick 0.
    pub start: Timestamp,
    /// Length of a tick, in milliseconds.
    pub tick_ms: u64,
    /// Index of the first tick not handed out yet.
    pub next_tick: u64,
}

impl TickClock {
    /// The start is a valid reading, a tick has a positive length, and no
    /// tick was handed out that no reading of the wall clock can make due.
    pub open spec fn wf(self) -> bool {
        &&& self.start.wf()
        &&& self.tick_ms > 0
        &&& self.next_tick <= MAX_ELAPSED_MS + 1
    }

    /// The clock after a poll at `now` and the ticks the poll hands out:
    /// all ticks due by now that no earlier poll handed out.
    pub open spec fn poll_spec(self, now: Timestamp) -> (TickClock, TickSpan) {
        let due = tick_index(self.start, now, self.tick_ms);
        if due >= self.next_tick {
            (
                TickClock { next_tick: (due + 1) as u64, ..self },
                TickSpan { first: self.next_tick, count: (due + 1 - self.next_tick) as u64 },
            )
        } else {
            (self, TickSpan { first: self.next_tick, count: 0 })
        }
    }

    /// A clock whose tick 0 is due at `start`.
    pub fn new(start: Timestamp, tick_ms: u64) -> (clock: TickClock)
        requires
            start.wf(),
            tick_ms > 0,
        ensures
            clock == (TickClock { start, tick_ms, next_tick: 0 }),
            clock.wf(),
    {
        TickClock { start, tick_ms, next_tick: 0 }
    }

    /// Hands out the ticks that have become due since the previous poll.
    /// The span starts where the previous one ended, so no tick is handed
    /// out twice and the clock only moves forward.
    pub fn poll(&mut self, now: Timestamp) -> (span: TickSpan)
        requires
            old(self).wf(),
            now.wf(),
        ensures
            final(self).wf(),
            *final(self) == old(self).poll_spec(now).0,
            span == old(self).poll_spec(now).1,
            span.first == old(self).next_tick,
            final(self).next_tick == span.first + span.count,
            span.first + span.count <= MAX_ELAPSED_MS + 1,
    {
        let due = tick_at(self.start, now, self.tick_ms);
        let first = self.next_tick;
        if due >= first {
            self.next_tick = due + 1;
            TickSpan { first, count: due + 1 - first }
        } else {
            TickSpan { first, count: 0 }
        }
    }
}

/// Catch-up: however late a poll comes, it hands out every tick that
/// became due in the meantime, in order and without a gap. Polling at `t1`
/// and again at a later `t2` hands out, one span after the other, exactly
/// the ticks that a single poll at `t2` hands out, and leaves the same
/// clock.
pub proof fn lemma_poll_catch_up(clock: TickClock, t1: Timestamp, t2: Timestamp)
    requires
        clock.wf(),
        t1.wf(),
        t2.wf(),
        t1.nanos() <= t2.nanos(),
    ensures
        ({
            let (c1, s1) = clock.poll_spec(t1);
            let (c2, s2) = c1.poll_spec(t2);
            let (c, s) = clock.poll_spec(t2);
            &&& c2 == c
            &&& s2.first == s1.first + s1.count
            &&& s1.count + s2.count == s.count
            &&& s1.ticks() + s2.ticks() == s.ticks()
        }),
{
    lemma_tick_monotonic(clock.start, t1, t2, clock.tick_ms);
    let (c1, s1) = clock.poll_spec(t1);
    let (c2, s2) = c1.poll_spec(t2);
    let (c, s) = clock.poll_spec(t2);
    assert(s1.ticks() + s2.ticks() =~= s.ticks());
}

} // verus!
