use vstd::prelude::*;
use crate::models::{ScreenshotBlob, ScreenshotView, WindowEventRow};

verus! {

/// Absolute time difference between two instants, in seconds.
pub open spec fn dist(a: int, b: int) -> int {
    if a >= b {
        a - b
    } else {
        b - a
    }
}

/// The plain value of an optional screenshot.
pub open spec fn opt_shot(s: Option<ScreenshotBlob>) -> Option<ScreenshotView> {
    match s {
        Some(b) => Some(b@),
        None => None,
    }
}

/// Of the closest screenshot at or after the query instant and the closest one
/// before it, the nearer; the earlier one on a tie.
pub open spec fn pick_nearest_spec(
    ts: int,
    older: Option<ScreenshotView>,
    newer: Option<ScreenshotView>,
) -> Option<ScreenshotView> {
    match (older, newer) {
        (None, None) => None,
        (Some(o), None) => Some(o),
        (None, Some(n)) => Some(n),
        (Some(o), Some(n)) => if dist(ts, o.created_at_sec as int) <= dist(
            n.created_at_sec as int,
            ts,
        ) {
            Some(o)
        } else {
            Some(n)
        },
    }
}

/// Chooses between the two candidates of a nearest-screenshot lookup.
pub fn pick_nearest(ts_sec: i64, older: Option<ScreenshotBlob>, newer: Option<ScreenshotBlob>) -> (r:
    Option<ScreenshotBlob>)
    ensures
        opt_shot(r) == pick_nearest_spec(ts_sec as int, opt_shot(older), opt_shot(newer)),
{
    match (older, newer) {
        (None, None) => None,
        (Some(o), None) => Some(o),
        (None, Some(n)) => Some(n),
        (Some(o), Some(n)) => {
            let t = ts_sec as i128;
            let oc = o.created_at_sec as i128;
            let nc = n.created_at_sec as i128;
            let doff: i128 = if t >= oc {
                t - oc
            } else {
                oc - t
            };
            let noff: i128 = if nc >= t {
                nc - t
            } else {
                t - nc
            };
            if doff <= noff {
                Some(o)
            } else {
                Some(n)
            }
        },
    }
}

/// Whether a screenshot passes the optional application filter.
pub open spec fn shot_matches(s: ScreenshotView, app_id: Option<i64>) -> bool {
    match app_id {
        Some(a) => s.app_id == a,
        None => true,
    }
}

/// The screenshot nearest in time to `ts_sec` among those of `shots` that pass
/// the application filter; `None` when none passes it.
pub fn nearest_screenshot(shots: &Vec<ScreenshotBlob>, ts_sec: i64, app_id: Option<i64>) -> (r:
    Option<ScreenshotBlob>)
    ensures
        r is None <==> forall|j: int|
            0 <= j < shots@.len() ==> !shot_matches(#[trigger] shots@[j]@, app_id),
        r matches Some(s) ==> exists|j: int|
            0 <= j < shots@.len() && shot_matches(#[trigger] shots@[j]@, app_id) && shots@[j]@
                == s@,
        r matches Some(s) ==> forall|j: int|
            0 <= j < shots@.len() && shot_matches(#[trigger] shots@[j]@, app_id) ==> dist(
                ts_sec as int,
                s.created_at_sec as int,
            ) <= dist(ts_sec as int, shots@[j].created_at_sec as int),
        r matches Some(s) ==> forall|j: int|
            0 <= j < shots@.len() && shot_matches(#[trigger] shots@[j]@, app_id) && dist(
                ts_sec as int,
                shots@[j].created_at_sec as int,
            ) == dist(ts_sec as int, s.created_at_sec as int) ==> s.created_at_sec
                <= shots@[j].created_at_sec,
{
    let mut older: Option<usize> = None;
    let mut newer: Option<usize> = None;
    let mut i: usize = 0;
    while i < shots.len()
        invariant
            i <= shots@.len(),
            older matches Some(k) ==> k < i && shot_matches(shots@[k as int]@, app_id)
                && shots@[k as int].created_at_sec < ts_sec,
            older matches Some(k) ==> forall|j: int|
                0 <= j < i && shot_matches(#[trigger] shots@[j]@, app_id)
                    && shots@[j].created_at_sec < ts_sec ==> shots@[j].created_at_sec
                    <= shots@[k as int].created_at_sec,
            older is None ==> forall|j: int|
                0 <= j < i && shot_matches(#[trigger] shots@[j]@, app_id)
                    ==> shots@[j].created_at_sec >= ts_sec,
            newer matches Some(k) ==> k < i && shot_matches(shots@[k as int]@, app_id)
                && shots@[k as int].created_at_sec >= ts_sec,
            newer matches Some(k) ==> forall|j: int|
                0 <= j < i && shot_matches(#[trigger] shots@[j]@, app_id)
                    && shots@[j].created_at_sec >= ts_sec ==> shots@[k as int].created_at_sec
                    <= shots@[j].created_at_sec,
            newer is None ==> forall|j: int|
                0 <= j < i && shot_matches(#[trigger] shots@[j]@, app_id)
                    ==> shots@[j].created_at_sec < ts_sec,
        decreases shots@.len() - i,
    {
        let s = &shots[i];
        let passes = match app_id {
            Some(a) => s.app_id == a,
            None => true,
        };
        if passes {
            if s.created_at_sec < ts_sec {
                match older {
                    Some(k) => {
                        if shots[k].created_at_sec < s.created_at_sec {
                            older = Some(i);
                        }
                    },
                    None => {
                        older = Some(i);
                    },
                }
            } else {
                match newer {
                    Some(k) => {
                        if s.created_at_sec < shots[k].created_at_sec {
                            newer = Some(i);
                        }
                    },
                    None => {
                        newer = Some(i);
                    },
                }
            }
        }
        i = i + 1;
    }
    let o = match older {
        Some(k) => Some(shots[k].duplicate()),
        None => None,
    };
    let n = match newer {
        Some(k) => Some(shots[k].duplicate()),
        None => None,
    };
    let r = pick_nearest(ts_sec, o, n);
    proof {
        if let Some(k) = older {
            assert(shot_matches(shots@[k as int]@, app_id));
        }
        if let Some(k) = newer {
            assert(shot_matches(shots@[k as int]@, app_id));
        }
    }
    r
}

/// Whether an event lies in the inclusive range `[start, end]`.
pub open spec fn in_range(row: WindowEventRow, start: int, end: int) -> bool {
    start <= row.created_at_sec && row.created_at_sec <= end
}

/// The events of `rows` that lie in `[start, end]`, in their order.
pub open spec fn rows_in_range(rows: Seq<WindowEventRow>, start: int, end: int) -> Seq<
    WindowEventRow,
>
    decreases rows.len(),
{
    if rows.len() == 0 {
        Seq::empty()
    } else {
        let init = rows_in_range(rows.drop_last(), start, end);
        if in_range(rows.last(), start, end) {
            init.push(rows.last())
        } else {
            init
        }
    }
}

/// The first `limit` items of `s`, or all of them where `limit` is negative
/// (no bound, as a negative SQL `LIMIT` means).
pub open spec fn bounded(s: Seq<WindowEventRow>, limit: int) -> Seq<WindowEventRow> {
    if limit < 0 || limit >= s.len() {
        s
    } else {
        s.take(limit)
    }
}

/// Filtering distributes over concatenation.
pub proof fn lemma_rows_in_range_concat(a: Seq<WindowEventRow>, b: Seq<WindowEventRow>, start: int, end: int)
    ensures
        rows_in_range(a + b, start, end) == rows_in_range(a, start, end) + rows_in_range(b, start, end),
    decreases b.len(),
{
    if b.len() == 0 {
        assert(a + b =~= a);
        assert(rows_in_range(a, start, end) + rows_in_range(b, start, end) =~= rows_in_range(a, start, end));
    } else {
        assert((a + b).drop_last() =~= a + b.drop_last());
        assert((a + b).last() == b.last());
        lemma_rows_in_range_concat(a, b.drop_last(), start, end);
        let ra = rows_in_range(a, start, end);
        let rb = rows_in_range(b.drop_last(), start, end);
        if in_range(b.last(), start, end) {
            assert(ra + rb.push(b.last()) =~= (ra + rb).push(b.last()));
        }
    }
}

/// Every row that the filter keeps lies in the range and comes from `rows`.
pub proof fn lemma_rows_in_range_members(rows: Seq<WindowEventRow>, start: int, end: int)
    ensures
        rows_in_range(rows, start, end).len() <= rows.len(),
        forall|k: int|
            0 <= k < rows_in_range(rows, start, end).len() ==> in_range(
                #[trigger] rows_in_range(rows, start, end)[k],
                start,
                end,
            ),
    decreases rows.len(),
{
    if rows.len() > 0 {
        lemma_rows_in_range_members(rows.drop_last(), start, end);
    }
}

/// The events of the log `events` with `start_sec <= created_at_sec <= end_sec`,
/// ascending by time, at most `limit` of them (no bound where `limit` is negative).
pub fn events_in_range(events: &Vec<WindowEventRow>, start_sec: i64, end_sec: i64, limit: i64) -> (r:
    Vec<WindowEventRow>)
    requires
        time_ordered(events@, false),
    ensures
        r@ == bounded(rows_in_range(events@, start_sec as int, end_sec as int), limit as int),
        time_ordered(r@, false),
        time_ordered(events@, true) ==> time_ordered(r@, true),
{
    let mut out: Vec<WindowEventRow> = Vec::new();
    let mut i: usize = 0;
    while i < events.len() && (limit < 0 || (out.len() as i64) < limit)
        invariant
            i <= events@.len(),
            out@ == rows_in_range(events@.subrange(0, i as int), start_sec as int, end_sec as int),
            limit >= 0 ==> out@.len() <= limit,
        decreases events@.len() - i,
    {
        proof {
            assert(events@.subrange(0, i + 1).drop_last() =~= events@.subrange(0, i as int));
            assert(events@.subrange(0, i + 1).last() == events@[i as int]);
        }
        let row = &events[i];
        if start_sec <= row.created_at_sec && row.created_at_sec <= end_sec {
            out.push(row.duplicate());
        }
        i = i + 1;
    }
    proof {
        let all = rows_in_range(events@, start_sec as int, end_sec as int);
        let pre = events@.subrange(0, i as int);
        let post = events@.subrange(i as int, events@.len() as int);
        assert(events@ =~= pre + post);
        lemma_rows_in_range_concat(pre, post, start_sec as int, end_sec as int);
        if i < events@.len() {
            assert(all.take(limit as int) =~= out@);
        } else {
            assert(pre =~= events@);
        }
        lemma_range_query(events@, start_sec as int, end_sec as int, limit as int, false);
        lemma_range_query(events@, start_sec as int, end_sec as int, limit as int, true);
    }
    out
}

/// Timestamps never decrease along `rows`; with `strict`, they increase.
pub open spec fn time_ordered(rows: Seq<WindowEventRow>, strict: bool) -> bool {
    forall|i: int, j: int|
        0 <= i < j < rows.len() ==> if strict {
            (#[trigger] rows[i]).created_at_sec < (#[trigger] rows[j]).created_at_sec
        } else {
            rows[i].created_at_sec <= rows[j].created_at_sec
        }
}

/// Each row kept by the filter is a row of the input.
proof fn lemma_rows_in_range_from(rows: Seq<WindowEventRow>, start: int, end: int)
    ensures
        forall|k: int|
            0 <= k < rows_in_range(rows, start, end).len() ==> exists|i: int|
                0 <= i < rows.len() && rows[i] == #[trigger] rows_in_range(rows, start, end)[k],
    decreases rows.len(),
{
    if rows.len() > 0 {
        let init = rows.drop_last();
        lemma_rows_in_range_from(init, start, end);
        let f = rows_in_range(rows, start, end);
        let fi = rows_in_range(init, start, end);
        assert forall|k: int| 0 <= k < f.len() implies exists|i: int|
            0 <= i < rows.len() && rows[i] == #[trigger] f[k] by {
            if k < fi.len() {
                assert(f[k] == fi[k]);
                let i = choose|i: int| 0 <= i < init.len() && init[i] == fi[k];
                assert(rows[i] == f[k]);
            } else {
                assert(f[k] == rows.last());
                assert(rows[rows.len() - 1] == f[k]);
            }
        }
    }
}

/// The filter keeps the time order of its input.
proof fn lemma_rows_in_range_ordered(rows: Seq<WindowEventRow>, start: int, end: int, strict: bool)
    requires
        time_ordered(rows, strict),
    ensures
        time_ordered(rows_in_range(rows, start, end), strict),
    decreases rows.len(),
{
    if rows.len() > 0 {
        let init = rows.drop_last();
        assert(time_ordered(init, strict)) by {
            assert forall|i: int, j: int| 0 <= i < j < init.len() implies if strict {
                (#[trigger] init[i]).created_at_sec < (#[trigger] init[j]).created_at_sec
            } else {
                init[i].created_at_sec <= init[j].created_at_sec
            } by {
                assert(init[i] == rows[i] && init[j] == rows[j]);
            }
        }
        lemma_rows_in_range_ordered(init, start, end, strict);
        lemma_rows_in_range_from(init, start, end);
        let fi = rows_in_range(init, start, end);
        let f = rows_in_range(rows, start, end);
        if in_range(rows.last(), start, end) {
            assert forall|i: int, j: int| 0 <= i < j < f.len() implies if strict {
                (#[trigger] f[i]).created_at_sec < (#[trigger] f[j]).created_at_sec
            } else {
                f[i].created_at_sec <= f[j].created_at_sec
            } by {
                if j == f.len() - 1 {
                    assert(f[i] == fi[i]);
                    let a = choose|a: int| 0 <= a < init.len() && init[a] == fi[i];
                    assert(rows[a] == f[i]);
                    assert(rows[rows.len() - 1] == f[j]);
                } else {
                    assert(f[i] == fi[i] && f[j] == fi[j]);
                }
            }
        }
    }
}

/// What the range query returns lies in `[start, end]`, counts at most `limit`
/// rows where `limit` is not negative, and keeps the time order of the log:
/// ascending where timestamps never decrease along the log, strictly ascending
/// where they increase.
pub proof fn lemma_range_query(rows: Seq<WindowEventRow>, start: int, end: int, limit: int, strict: bool)
    ensures
        forall|k: int|
            0 <= k < bounded(rows_in_range(rows, start, end), limit).len() ==> in_range(
                #[trigger] bounded(rows_in_range(rows, start, end), limit)[k],
                start,
                end,
            ),
        limit >= 0 ==> bounded(rows_in_range(rows, start, end), limit).len() <= limit,
        time_ordered(rows, strict) ==> time_ordered(bounded(rows_in_range(rows, start, end), limit), strict),
{
    let f = rows_in_range(rows, start, end);
    let b = bounded(f, limit);
    lemma_rows_in_range_members(rows, start, end);
    assert forall|k: int| 0 <= k < b.len() implies in_range(#[trigger] b[k], start, end) by {
        assert(b[k] == f[k]);
    }
    if time_ordered(rows, strict) {
        lemma_rows_in_range_ordered(rows, start, end, strict);
        assert forall|i: int, j: int| 0 <= i < j < b.len() implies if strict {
            (#[trigger] b[i]).created_at_sec < (#[trigger] b[j]).created_at_sec
        } else {
            b[i].created_at_sec <= b[j].created_at_sec
        } by {
            assert(b[i] == f[i] && b[j] == f[j]);
        }
    }
}

/// Number of events returned by a range query that names no limit.
pub const DEFAULT_EVENT_LIMIT: i64 = 2000;

/// Whole seconds in `ms` milliseconds, truncated toward zero.
pub open spec fn secs_of_ms(ms: int) -> int {
    if ms >= 0 {
        ms / 1000
    } else {
        -((-ms) / 1000)
    }
}

pub fn secs_from_ms(ms: i64) -> (r: i64)
    ensures
        r == secs_of_ms(ms as int),
{
    if ms >= 0 {
        ms / 1000
    } else {
        let p: i128 = -(ms as i128);
        (-(p / 1000)) as i64
    }
}

/// The range query as the presentation layer asks it: bounds in milliseconds,
/// and an optional limit, `DEFAULT_EVENT_LIMIT` when absent.
pub fn fetch_window_events(events: &Vec<WindowEventRow>, start_ms: i64, end_ms: i64, limit: Option<i64>) -> (r:
    Vec<WindowEventRow>)
    requires
        time_ordered(events@, false),
    ensures
        time_ordered(r@, false),
        r@ == bounded(
            rows_in_range(events@, secs_of_ms(start_ms as int), secs_of_ms(end_ms as int)),
            match limit {
                Some(l) => l as int,
                None => DEFAULT_EVENT_LIMIT as int,
            },
        ),
{
    let lim = match limit {
        Some(l) => l,
        None => DEFAULT_EVENT_LIMIT,
    };
    events_in_range(events, secs_from_ms(start_ms), secs_from_ms(end_ms), lim)
}

} // verus!
