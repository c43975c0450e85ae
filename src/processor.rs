use vstd::prelude::*;
use crate::events::{WindowEvent, WindowForegroundEvent};

verus! {

/// A periodic-capture task bound to one window. The ticket tells apart tasks
/// started one after the other.
#[derive(Clone, Copy, Debug, PartialEq, Eq, Structural)]
pub struct ScheduledTask {
    pub ticket: u64,
    pub hwnd: isize,
}

/// What the processing loop must do with the scheduler after a foreground change.
#[derive(Clone, Copy, Debug, PartialEq, Eq, Structural)]
pub enum FocusDecision {
    /// The same window is still focused: keep the running task.
    Unchanged,
    /// Another window is focused: abort `cancel`, if any, then start `start`.
    Switch { cancel: Option<ScheduledTask>, start: ScheduledTask },
}

/// The plain value of the processing loop's focus state.
pub ghost struct FocusView {
    pub current: Option<isize>,
    pub active: Option<ScheduledTask>,
    pub next_ticket: u64,
}

/// The ticket handed out just before `n`.
pub open spec fn prev_ticket(n: u64) -> u64 {
    if n == 0 {
        u64::MAX
    } else {
        (n - 1) as u64
    }
}

/// The active task, if any, is bound to the focused window and holds the ticket
/// handed out last.
pub open spec fn focus_wf(s: FocusView) -> bool {
    match s.active {
        Some(t) => s.current == Some(t.hwnd) && t.ticket == prev_ticket(s.next_ticket),
        None => s.current is None,
    }
}

/// The focus state after a foreground notification for `hwnd`, and the decision.
pub open spec fn focus_step(s: FocusView, hwnd: isize) -> (FocusView, FocusDecision) {
    if s.current == Some(hwnd) {
        (s, FocusDecision::Unchanged)
    } else {
        let start = ScheduledTask { ticket: s.next_ticket, hwnd };
        (
            FocusView {
                current: Some(hwnd),
                active: Some(start),
                next_ticket: (if s.next_ticket == u64::MAX { 0 } else { s.next_ticket + 1 }) as u64,
            },
            FocusDecision::Switch { cancel: s.active, start },
        )
    }
}

/// Whether a finished capture of `task` may be persisted in state `s`.
pub open spec fn accepts_spec(s: FocusView, task: ScheduledTask) -> bool {
    s.active == Some(task)
}

/// The focus state of the processing loop: the focused window and the one
/// active capture task.
pub struct FocusTracker {
    current: Option<isize>,
    active: Option<ScheduledTask>,
    next_ticket: u64,
}

impl View for FocusTracker {
    type V = FocusView;

    closed spec fn view(&self) -> FocusView {
        FocusView { current: self.current, active: self.active, next_ticket: self.next_ticket }
    }
}

impl FocusTracker {
    #[verifier::type_invariant]
    spec fn inv(self) -> bool {
        focus_wf(self@)
    }

    pub fn new() -> (r: FocusTracker)
        ensures
            r@.current is None,
            r@.active is None,
            focus_wf(r@),
    {
        FocusTracker { current: None, active: None, next_ticket: 0 }
    }

    /// The task currently active.
    pub fn active_task(&self) -> (r: Option<ScheduledTask>)
        ensures
            r == self@.active,
    {
        self.active
    }

    /// Handles a foreground notification for `hwnd`: where the window differs
    /// from the focused one, the active task is cancelled and a new one started.
    pub fn on_foreground(&mut self, hwnd: isize) -> (r: FocusDecision)
        ensures
            (final(self)@, r) == focus_step(old(self)@, hwnd),
            focus_wf(final(self)@),
    {
        if self.current == Some(hwnd) {
            proof {
                use_type_invariant(&*self);
            }
            return FocusDecision::Unchanged;
        }
        let start = ScheduledTask { ticket: self.next_ticket, hwnd };
        let cancel = self.active;
        *self = FocusTracker {
            current: Some(hwnd),
            active: Some(start),
            next_ticket: self.next_ticket.wrapping_add(1),
        };
        FocusDecision::Switch { cancel, start }
    }

    /// Whether the capture that `task` just finished may be persisted: only a
    /// task that is still active, so that nothing captured by a cancelled task
    /// is stored.
    pub fn accepts_capture(&self, task: ScheduledTask) -> (r: bool)
        ensures
            r == accepts_spec(self@, task),
    {
        match self.active {
            Some(t) => t.ticket == task.ticket && t.hwnd == task.hwnd,
            None => false,
        }
    }
}

/// The tickets of the tasks started and not cancelled, given by the decisions
/// taken on the notifications `hwnds` from state `s`, where `live` were running.
pub open spec fn live_after(s: FocusView, live: Set<u64>, hwnds: Seq<isize>) -> Set<u64>
    decreases hwnds.len(),
{
    if hwnds.len() == 0 {
        live
    } else {
        let (s2, d) = focus_step(s, hwnds[0]);
        let live2 = match d {
            FocusDecision::Unchanged => live,
            FocusDecision::Switch { cancel, start } => match cancel {
                Some(c) => live.remove(c.ticket),
                None => live,
            }.insert(start.ticket),
        };
        live_after(s2, live2, hwnds.drop_first())
    }
}

/// The focus state after the notifications `hwnds`.
pub open spec fn focus_after(s: FocusView, hwnds: Seq<isize>) -> FocusView
    decreases hwnds.len(),
{
    if hwnds.len() == 0 {
        s
    } else {
        focus_after(focus_step(s, hwnds[0]).0, hwnds.drop_first())
    }
}

pub open spec fn tickets_of(s: FocusView) -> Set<u64> {
    match s.active {
        Some(t) => set![t.ticket],
        None => Set::empty(),
    }
}

/// For any sequence of foreground notifications, the tasks that the decisions
/// start and do not cancel are at most one, and after a non-empty sequence
/// exactly one, bound to the last window notified.
pub proof fn lemma_at_most_one_active(s: FocusView, hwnds: Seq<isize>)
    requires
        focus_wf(s),
    ensures
        live_after(s, tickets_of(s), hwnds) == tickets_of(focus_after(s, hwnds)),
        live_after(s, tickets_of(s), hwnds).len() <= 1,
        focus_wf(focus_after(s, hwnds)),
        hwnds.len() > 0 ==> (focus_after(s, hwnds).active matches Some(t) && t.hwnd == hwnds.last()),
    decreases hwnds.len(),
{
    if hwnds.len() > 0 {
        let (s2, d) = focus_step(s, hwnds[0]);
        match d {
            FocusDecision::Unchanged => {},
            FocusDecision::Switch { cancel, start } => {
                let base = match cancel {
                    Some(c) => tickets_of(s).remove(c.ticket),
                    None => tickets_of(s),
                };
                assert(base =~= Set::<u64>::empty());
                assert(base.insert(start.ticket) =~= tickets_of(s2));
            },
        }
        lemma_at_most_one_active(s2, hwnds.drop_first());
        if hwnds.len() > 1 {
            assert(hwnds.drop_first().last() == hwnds.last());
        }
    }
    let f = focus_after(s, hwnds);
    match f.active {
        Some(t) => assert(tickets_of(f) =~= set![t.ticket]),
        None => {},
    }
}

/// One notification keeps the focus state well formed.
proof fn lemma_step_wf(s: FocusView, hwnd: isize)
    requires
        focus_wf(s),
    ensures
        focus_wf(focus_step(s, hwnd).0),
{
}

/// The ticket `j` places after `n`, modulo 2^64.
pub open spec fn advance(n: u64, j: int) -> int {
    (n + j) % 0x1_0000_0000_0000_0000
}

/// Tickets advance by one for each task started, modulo 2^64.
proof fn lemma_ticket_progress(s: FocusView, hwnds: Seq<isize>)
    requires
        focus_wf(s),
    ensures
        exists|j: int|
            0 <= j <= hwnds.len() && focus_after(s, hwnds).next_ticket == #[trigger] advance(s.next_ticket, j),
    decreases hwnds.len(),
{
    if hwnds.len() == 0 {
        assert(focus_after(s, hwnds).next_ticket == advance(s.next_ticket, 0));
    } else {
        let s1 = focus_step(s, hwnds[0]).0;
        lemma_step_wf(s, hwnds[0]);
        lemma_ticket_progress(s1, hwnds.drop_first());
        let j1 = choose|j: int|
            0 <= j <= hwnds.drop_first().len() && focus_after(s1, hwnds.drop_first()).next_ticket
                == #[trigger] advance(s1.next_ticket, j);
        if s1.next_ticket == s.next_ticket {
            assert(focus_after(s, hwnds).next_ticket == advance(s.next_ticket, j1));
        } else {
            assert(s1.next_ticket == (s.next_ticket + 1) % 0x1_0000_0000_0000_0000);
            assert(focus_after(s, hwnds).next_ticket == advance(s.next_ticket, j1 + 1));
        }
    }
}

/// When another window comes to the foreground, the task of the window that lost
/// focus is cancelled, and no capture of it is accepted afterwards, whatever
/// notifications follow (fewer than 2^64 - 2 of them, after which tickets wrap).
pub proof fn lemma_cancelled_capture_discarded(s: FocusView, hwnd: isize, rest: Seq<isize>)
    requires
        focus_wf(s),
        s.active is Some,
        s.current != Some(hwnd),
        rest.len() + 2 < 0x1_0000_0000_0000_0000,
    ensures
        ({
            let (s2, d) = focus_step(s, hwnd);
            &&& d == FocusDecision::Switch { cancel: s.active, start: s2.active->0 }
            &&& s2.active->0.hwnd == hwnd
            &&& !accepts_spec(focus_after(s2, rest), s.active->0)
        }),
{
    let s2 = focus_step(s, hwnd).0;
    let f = focus_after(s2, rest);
    lemma_at_most_one_active(s2, rest);
    lemma_ticket_progress(s2, rest);
    if let Some(t) = f.active {
        let j = choose|j: int|
            0 <= j <= rest.len() && focus_after(s2, rest).next_ticket == #[trigger] advance(s2.next_ticket, j);
        assert(s2.next_ticket == (s.next_ticket + 1) % 0x1_0000_0000_0000_0000);
        assert(f.next_ticket == (s.next_ticket + 1 + j) % 0x1_0000_0000_0000_0000);
        assert(f.next_ticket != s.next_ticket);
        assert(t.ticket != s.active->0.ticket);
    }
}

/// How the processing loop handles one notification.
pub enum Dispatch<'a> {
    /// A foreground change: resolve the application, record the event, and
    /// reconcile the scheduler.
    Foreground(&'a WindowForegroundEvent),
    /// A notification of another kind: logged and dropped.
    Drop,
}

pub fn dispatch(event: &WindowEvent) -> (r: Dispatch<'_>)
    ensures
        event matches WindowEvent::Foreground(e) ==> (r matches Dispatch::Foreground(f) && *f == e),
        event is Other ==> r is Drop,
{
    match event {
        WindowEvent::Foreground(e) => Dispatch::Foreground(e),
        WindowEvent::Other(_) => Dispatch::Drop,
    }
}

} // verus!
