use vstd::prelude::*;
use std::collections::HashMap;

verus! {

broadcast use vstd::std_specs::hash::group_hash_axioms;

/// Milliseconds elapsed from `last` to `now`; zero where `now` is earlier.
pub open spec fn elapsed(last: u64, now: u64) -> int {
    if now >= last {
        now - last
    } else {
        0
    }
}

/// Whether a capture is due: none was taken yet, or at least one interval has
/// elapsed since the last one.
pub open spec fn capture_due(last: Option<u64>, now: u64, interval: u64) -> bool {
    match last {
        None => true,
        Some(t) => elapsed(t, now) >= interval,
    }
}

/// How long to wait before the next capture is due.
pub open spec fn remaining_spec(last: Option<u64>, now: u64, interval: u64) -> int {
    match last {
        None => interval as int,
        Some(t) => if elapsed(t, now) >= interval {
            0
        } else {
            interval - elapsed(t, now)
        },
    }
}

/// Whether the window whose last capture was at `last_ms` is due for another at `now_ms`.
pub fn should_take_screenshot(last_ms: Option<u64>, now_ms: u64, interval_ms: u64) -> (r: bool)
    ensures
        r == capture_due(last_ms, now_ms, interval_ms),
{
    match last_ms {
        Some(t) => now_ms.saturating_sub(t) >= interval_ms,
        None => true,
    }
}

/// Milliseconds to wait, from `now_ms`, until the next capture is due.
pub fn get_remaining_time(last_ms: Option<u64>, now_ms: u64, interval_ms: u64) -> (r: u64)
    ensures
        r == remaining_spec(last_ms, now_ms, interval_ms),
{
    match last_ms {
        Some(t) => interval_ms.saturating_sub(now_ms.saturating_sub(t)),
        None => interval_ms,
    }
}

/// What one tick of the capture loop does.
#[derive(Clone, Copy, Debug, PartialEq, Eq, Structural)]
pub enum TickAction {
    /// Capture the window now, then record the capture instant.
    Capture,
    /// Wait this many milliseconds, then tick again.
    Sleep(u64),
}

pub open spec fn tick_spec(last: Option<u64>, now: u64, interval: u64) -> TickAction {
    if capture_due(last, now, interval) {
        TickAction::Capture
    } else {
        TickAction::Sleep(remaining_spec(last, now, interval) as u64)
    }
}

/// Last capture instant of each window, in milliseconds, keyed by window
/// identifier so that two windows of one application are tracked apart.
pub struct CaptureLog {
    last: HashMap<isize, u64>,
}

impl View for CaptureLog {
    type V = Map<isize, u64>;

    closed spec fn view(&self) -> Map<isize, u64> {
        self.last@
    }
}

/// The last capture instant of `hwnd` recorded in `log`.
pub open spec fn last_of(log: Map<isize, u64>, hwnd: isize) -> Option<u64> {
    if log.contains_key(hwnd) {
        Some(log[hwnd])
    } else {
        None
    }
}

impl CaptureLog {
    pub fn new() -> (r: CaptureLog)
        ensures
            r@ == Map::<isize, u64>::empty(),
    {
        CaptureLog { last: HashMap::new() }
    }

    pub fn last_capture(&self, hwnd: isize) -> (r: Option<u64>)
        ensures
            r == last_of(self@, hwnd),
    {
        match self.last.get(&hwnd) {
            Some(t) => Some(*t),
            None => None,
        }
    }

    pub fn record_capture(&mut self, hwnd: isize, at_ms: u64)
        ensures
            final(self)@ == old(self)@.insert(hwnd, at_ms),
    {
        self.last.insert(hwnd, at_ms);
    }

    /// One tick of the capture loop of `hwnd` at instant `now_ms`.
    pub fn tick(&self, hwnd: isize, now_ms: u64, interval_ms: u64) -> (r: TickAction)
        ensures
            r == tick_spec(last_of(self@, hwnd), now_ms, interval_ms),
    {
        let last = self.last_capture(hwnd);
        if should_take_screenshot(last, now_ms, interval_ms) {
            TickAction::Capture
        } else {
            TickAction::Sleep(get_remaining_time(last, now_ms, interval_ms))
        }
    }
}

/// Number of captures that the loop of one window makes from instant `now` up
/// to instant `end`, when each wait lasts exactly what the tick asked for and a
/// capture takes no time.
pub open spec fn captures_until(last: Option<u64>, now: u64, end: u64, interval: u64) -> nat
    decreases end - now, (if capture_due(last, now, interval) { 1int } else { 0int }),
{
    if now > end || interval == 0 {
        0
    } else if capture_due(last, now, interval) {
        1 + captures_until(Some(now), now, end, interval)
    } else {
        let next = now + remaining_spec(last, now, interval);
        if next > end {
            0
        } else {
            captures_until(last, next as u64, end, interval)
        }
    }
}

/// Right after a capture at `c`, the loop captures once per whole interval
/// that fits before `end`.
pub proof fn lemma_captures_after_capture(c: u64, end: u64, interval: u64)
    requires
        interval > 0,
        c <= end,
        end + interval <= u64::MAX,
    ensures
        captures_until(Some(c), c, end, interval) == (end - c) / (interval as int),
    decreases end - c,
{
    let next = (c + interval) as u64;
    assert(!capture_due(Some(c), c, interval));
    assert(remaining_spec(Some(c), c, interval) == interval);
    if next > end {
        vstd::arithmetic::div_mod::lemma_basic_div((end - c) as int, interval as int);
    } else {
        assert(capture_due(Some(c), next, interval));
        assert(captures_until(Some(c), c, end, interval) == captures_until(Some(c), next, end, interval));
        assert(captures_until(Some(c), next, end, interval) == 1 + captures_until(Some(next), next, end, interval));
        lemma_captures_after_capture(next, end, interval);
        vstd::arithmetic::div_mod::lemma_div_plus_one((end - next) as int, interval as int);
    }
}

/// A window that keeps the focus from `start` to `end`, with interval `interval`,
/// gets between floor(D / I) and floor(D / I) + 1 captures, D = end - start.
pub proof fn lemma_capture_count(last: Option<u64>, start: u64, end: u64, interval: u64)
    requires
        interval > 0,
        start <= end,
        end + interval <= u64::MAX,
        last matches Some(t) ==> t <= start,
    ensures
        (end - start) / (interval as int) <= captures_until(last, start, end, interval),
        captures_until(last, start, end, interval) <= (end - start) / (interval as int) + 1,
{
    let d = (end - start) as int;
    let i = interval as int;
    if capture_due(last, start, interval) {
        assert(captures_until(last, start, end, interval) == 1 + captures_until(Some(start), start, end, interval));
        lemma_captures_after_capture(start, end, interval);
    } else {
        let t = last->0;
        let next = (t + interval) as u64;
        assert(remaining_spec(last, start, interval) == next - start);
        if next > end {
            vstd::arithmetic::div_mod::lemma_basic_div(d, i);
        } else {
            assert(capture_due(last, next, interval));
            assert(captures_until(last, start, end, interval) == captures_until(last, next, end, interval));
            assert(captures_until(last, next, end, interval) == 1 + captures_until(Some(next), next, end, interval));
            lemma_captures_after_capture(next, end, interval);
            let x = (next - start) as int;
            vstd::arithmetic::div_mod::lemma_div_is_ordered(d - x, d, i);
            vstd::arithmetic::div_mod::lemma_div_is_ordered(d - i, d - x, i);
            vstd::arithmetic::div_mod::lemma_div_plus_one(d - i, i);
        }
    }
}

/// Number of captures that the loop of one window makes from instant `now` up
/// to instant `end`, when each wait lasts what the tick asked for and the k-th
/// capture takes `delays[k]` milliseconds (none once `delays` runs out), its
/// instant being recorded when it completes.
pub open spec fn captures_delayed(last: Option<u64>, now: u64, end: u64, interval: u64, delays: Seq<nat>) -> nat
    decreases end - now, delays.len(), (if capture_due(last, now, interval) { 1int } else { 0int }),
{
    if now > end || interval == 0 {
        0
    } else if capture_due(last, now, interval) {
        let done = now + (if delays.len() > 0 { delays[0] } else { 0 });
        let rest = if delays.len() > 0 { delays.drop_first() } else { delays };
        if done > end {
            1
        } else {
            1 + captures_delayed(Some(done as u64), done as u64, end, interval, rest)
        }
    } else {
        let next = now + remaining_spec(last, now, interval);
        if next > end {
            0
        } else {
            captures_delayed(last, next as u64, end, interval, delays)
        }
    }
}

proof fn lemma_captures_delayed_bound(last: Option<u64>, now: u64, end: u64, interval: u64, delays: Seq<nat>)
    requires
        interval > 0,
        now <= end,
        end + interval <= u64::MAX,
        last matches Some(t) ==> t <= now,
    ensures
        captures_delayed(last, now, end, interval, delays) <= (end - now) / (interval as int) + (if last
            == Some(now) {
            0int
        } else {
            1int
        }),
    decreases end - now, delays.len(), (if capture_due(last, now, interval) { 1int } else { 0int }),
{
    let i = interval as int;
    if capture_due(last, now, interval) {
        let done = now + (if delays.len() > 0 { delays[0] } else { 0 });
        let rest = if delays.len() > 0 { delays.drop_first() } else { delays };
        assert(last != Some(now));
        if done <= end {
            lemma_captures_delayed_bound(Some(done as u64), done as u64, end, interval, rest);
            vstd::arithmetic::div_mod::lemma_div_is_ordered(end - done, end - now, i);
        } else {
            vstd::arithmetic::div_mod::lemma_div_is_ordered(0, end - now, i);
            vstd::arithmetic::div_mod::lemma_basic_div(0, i);
        }
    } else {
        let next = now + remaining_spec(last, now, interval);
        vstd::arithmetic::div_mod::lemma_div_is_ordered(0, end - now, i);
        vstd::arithmetic::div_mod::lemma_basic_div(0, i);
        if next <= end {
            lemma_captures_delayed_bound(last, next as u64, end, interval, delays);
            assert(last != Some(next as u64));
            vstd::arithmetic::div_mod::lemma_div_is_ordered(end - next, end - now, i);
            if last == Some(now) {
                assert(next == now + i);
                vstd::arithmetic::div_mod::lemma_div_plus_one((end - next) as int, i);
            }
        }
    }
}

/// However long each capture takes, a window that keeps the focus from `start`
/// to `end` gets at most floor(D / I) + 1 captures, D = end - start.
pub proof fn lemma_capture_count_upper(last: Option<u64>, start: u64, end: u64, interval: u64, delays: Seq<nat>)
    requires
        interval > 0,
        start <= end,
        end + interval <= u64::MAX,
        last matches Some(t) ==> t <= start,
    ensures
        captures_delayed(last, start, end, interval, delays) <= (end - start) / (interval as int) + 1,
{
    lemma_captures_delayed_bound(last, start, end, interval, delays);
}

} // verus!
