//! Rate limiting for bursts of navigation requests.
//!
//! A high-frequency input stream (a continuous drag on a scrubber control)
//! must not trigger one expensive checkout per raw event.  The dispatcher
//! coalesces every burst with trailing-edge, last-value-wins throttling: the
//! first event of a burst opens a window of `window_ms` milliseconds, later
//! events inside the window only replace the pending argument, and when the
//! window elapses exactly one call is forwarded, carrying the most recent
//! argument.  The final event of a burst is therefore never dropped, and
//! forwarded calls are always at least one window apart.
//!
//! The dispatcher holds no domain state and does no waiting itself: the
//! caller owns the clock, reports inputs with `on_input`, and fires the
//! timer with `on_timer` (or `flush` at end of input).

use vstd::prelude::*;

verus! {

/// Input events as (arrival time in ms, argument), in arrival order.
pub open spec fn times_sorted(inputs: Seq<(u64, i64)>) -> bool {
    forall|i: int, j: int| 0 <= i < j < inputs.len() ==> inputs[i].0 <= inputs[j].0
}

/// Every arrival time can be extended by one window without overflow.
pub open spec fn times_fit(inputs: Seq<(u64, i64)>, w: u64) -> bool {
    forall|i: int| 0 <= i < inputs.len() ==> inputs[i].0 + w <= u64::MAX
}

/// Consecutive forwarded calls are at least one window apart.
pub open spec fn spaced(r: Seq<(u64, i64)>, w: u64) -> bool {
    forall|i: int| 0 <= i < r.len() - 1 ==> (#[trigger] r[i]).0 + w <= r[i + 1].0
}

/// The forwarded calls, as (forwarding time, argument), that trailing-edge
/// throttling with window `w` produces from the remaining `inputs` when a
/// window with deadline and pending argument `pending` is currently open.
pub open spec fn run_from(
    w: u64,
    inputs: Seq<(u64, i64)>,
    pending: Option<(u64, i64)>,
) -> Seq<(u64, i64)>
    decreases inputs.len(),
{
    if inputs.len() == 0 {
        match pending {
            None => Seq::empty(),
            Some(p) => seq![p],
        }
    } else {
        let t = inputs.first().0;
        let a = inputs.first().1;
        match pending {
            None => run_from(w, inputs.drop_first(), Some(((t + w) as u64, a))),
            Some(p) => if t < p.0 {
                run_from(w, inputs.drop_first(), Some((p.0, a)))
            } else {
                seq![p] + run_from(w, inputs.drop_first(), Some(((t + w) as u64, a)))
            },
        }
    }
}

/// The forwarded calls that trailing-edge throttling with window `w`
/// produces from a whole input trace.
pub open spec fn throttle_trace(w: u64, inputs: Seq<(u64, i64)>) -> Seq<(u64, i64)> {
    run_from(w, inputs, None)
}

/// Trailing-edge, last-value-wins throttle over an externally owned clock.
pub struct ThrottledDispatcher {
    window_ms: u64,
    pending: Option<i64>,
    deadline: u64,
}

impl ThrottledDispatcher {
    /// The fixed window length in milliseconds.
    pub closed spec fn window(self) -> u64 {
        self.window_ms
    }

    /// The open window, if any, as (deadline, pending argument).
    pub closed spec fn pending_view(self) -> Option<(u64, i64)> {
        match self.pending {
            None => None,
            Some(a) => Some((self.deadline, a)),
        }
    }

    /// A window is at least one millisecond long.
    pub closed spec fn wf(self) -> bool {
        self.window_ms >= 1
    }

    /// A dispatcher with no window open.
    pub fn new(window_ms: u64) -> (r: ThrottledDispatcher)
        requires
            window_ms >= 1,
        ensures
            r.wf(),
            r.window() == window_ms,
            r.pending_view() is None,
    {
        ThrottledDispatcher { window_ms, pending: None, deadline: 0 }
    }

    /// Report a raw input event at time `now`.  If no window is open, one
    /// opens: the result asks the caller to arm a timer for its deadline.
    /// If a window is already open, the event only replaces the pending
    /// argument (last value wins) and no new timer is needed.
    pub fn on_input(&mut self, now: u64, arg: i64) -> (timer: Option<u64>)
        requires
            old(self).wf(),
            now + old(self).window() <= u64::MAX,
            old(self).pending_view() matches Some(p) ==> now <= p.0,
        ensures
            final(self).wf(),
            final(self).window() == old(self).window(),
            old(self).pending_view() is None ==> {
                &&& final(self).pending_view() == Some(((now + old(self).window()) as u64, arg))
                &&& timer == Some((now + old(self).window()) as u64)
            },
            old(self).pending_view() matches Some(p) ==> {
                &&& final(self).pending_view() == Some((p.0, arg))
                &&& timer is None
            },
    {
        match self.pending {
            None => {
                self.pending = Some(arg);
                self.deadline = now + self.window_ms;
                Some(self.deadline)
            },
            Some(_) => {
                self.pending = Some(arg);
                None
            },
        }
    }

    /// Fire the timer at time `now`.  If a window is open and its deadline
    /// has passed, the pending call is forwarded as (deadline, argument)
    /// and the window closes; otherwise nothing happens.
    pub fn on_timer(&mut self, now: u64) -> (fwd: Option<(u64, i64)>)
        requires
            old(self).wf(),
        ensures
            final(self).wf(),
            final(self).window() == old(self).window(),
            match old(self).pending_view() {
                Some(p) => if now >= p.0 {
                    fwd == Some(p) && final(self).pending_view() is None
                } else {
                    fwd is None && *final(self) == *old(self)
                },
                None => fwd is None && *final(self) == *old(self),
            },
    {
        match self.pending {
            Some(a) => {
                if now >= self.deadline {
                    self.pending = None;
                    Some((self.deadline, a))
                } else {
                    None
                }
            },
            None => None,
        }
    }

    /// Close the open window regardless of the clock, forwarding its
    /// pending call, if any.  Used when the input stream ends.
    pub fn flush(&mut self) -> (fwd: Option<(u64, i64)>)
        requires
            old(self).wf(),
        ensures
            final(self).wf(),
            final(self).window() == old(self).window(),
            fwd == old(self).pending_view(),
            final(self).pending_view() is None,
    {
        match self.pending {
            Some(a) => {
                self.pending = None;
                Some((self.deadline, a))
            },
            None => None,
        }
    }
}

/// Run a whole input trace through a dispatcher and collect the forwarded
/// calls.  The result is exactly the trailing-edge throttling of the trace.
pub fn run_throttle(window_ms: u64, inputs: &Vec<(u64, i64)>) -> (out: Vec<(u64, i64)>)
    requires
        window_ms >= 1,
        times_sorted(inputs@),
        times_fit(inputs@, window_ms),
    ensures
        out@ == throttle_trace(window_ms, inputs@),
{
    let mut d = ThrottledDispatcher::new(window_ms);
    let mut out: Vec<(u64, i64)> = Vec::new();
    let ghost all = inputs@;
    let mut idx: usize = 0;
    proof {
        assert(all.skip(0) =~= all);
        assert(out@ + run_from(window_ms, all, d.pending_view()) =~= throttle_trace(
            window_ms,
            all,
        ));
    }
    while idx < inputs.len()
        invariant
            d.wf(),
            d.window() == window_ms,
            times_sorted(all),
            times_fit(all, window_ms),
            inputs@ == all,
            idx <= all.len(),
            throttle_trace(window_ms, all) == out@ + run_from(
                window_ms,
                all.skip(idx as int),
                d.pending_view(),
            ),
        decreases all.len() - idx,
    {
        let t = inputs[idx].0;
        let a = inputs[idx].1;
        proof {
            assert(all.skip(idx as int).drop_first() =~= all.skip(idx as int + 1));
            assert(all.skip(idx as int).first() == all[idx as int]);
        }
        let fired = d.on_timer(t);
        match fired {
            Some(f) => {
                out.push(f);
            },
            None => {},
        }
        d.on_input(t, a);
        proof {
            assert(out@ + run_from(window_ms, all.skip(idx as int + 1), d.pending_view())
                =~= throttle_trace(window_ms, all));
        }
        idx = idx + 1;
    }
    proof {
        assert(all.skip(all.len() as int) =~= Seq::<(u64, i64)>::empty());
    }
    let last = d.flush();
    match last {
        Some(f) => {
            out.push(f);
        },
        None => {},
    }
    proof {
        assert(out@ =~= throttle_trace(window_ms, all));
    }
    out
}

/// The final call of a trace is never dropped: throttling a non-empty
/// trace forwards at least one call, and the last forwarded call carries
/// the argument of the last input (last value wins).
pub proof fn lemma_last_never_dropped(w: u64, inputs: Seq<(u64, i64)>)
    requires
        inputs.len() > 0,
    ensures
        throttle_trace(w, inputs).len() > 0,
        throttle_trace(w, inputs).last().1 == inputs.last().1,
{
    lemma_run_from_last(w, inputs, None);
}

/// Generalized form of `lemma_last_never_dropped` over an open window.
proof fn lemma_run_from_last(w: u64, inputs: Seq<(u64, i64)>, pending: Option<(u64, i64)>)
    requires
        inputs.len() > 0 || pending is Some,
    ensures
        run_from(w, inputs, pending).len() > 0,
        inputs.len() > 0 ==> run_from(w, inputs, pending).last().1 == inputs.last().1,
        inputs.len() == 0 ==> run_from(w, inputs, pending).last().1 == (pending->0).1,
    decreases inputs.len(),
{
    if inputs.len() > 0 {
        let t = inputs.first().0;
        let a = inputs.first().1;
        let tail = inputs.drop_first();
        if tail.len() == 0 {
            assert(inputs.last() == inputs.first());
        } else {
            assert(tail.last() == inputs.last());
        }
        match pending {
            None => lemma_run_from_last(w, tail, Some(((t + w) as u64, a))),
            Some(p) => {
                if t < p.0 {
                    lemma_run_from_last(w, tail, Some((p.0, a)));
                } else {
                    lemma_run_from_last(w, tail, Some(((t + w) as u64, a)));
                }
            },
        }
    }
}

/// At most one call is forwarded per window: in the throttling of a sorted
/// trace, consecutive forwarded calls are at least one window apart.
pub proof fn lemma_throttle_spacing(w: u64, inputs: Seq<(u64, i64)>)
    requires
        w >= 1,
        times_sorted(inputs),
        times_fit(inputs, w),
    ensures
        spaced(throttle_trace(w, inputs), w),
{
    lemma_run_from_spacing(w, inputs, None);
}

/// Generalized form of `lemma_throttle_spacing` over an open window whose
/// deadline is no later than one window after the next input.
proof fn lemma_run_from_spacing(w: u64, inputs: Seq<(u64, i64)>, pending: Option<(u64, i64)>)
    requires
        w >= 1,
        times_sorted(inputs),
        times_fit(inputs, w),
        pending matches Some(p) ==> (inputs.len() > 0 ==> p.0 <= inputs.first().0 + w),
    ensures
        spaced(run_from(w, inputs, pending), w),
        pending matches Some(p) ==> (run_from(w, inputs, pending).len() > 0 && run_from(
            w,
            inputs,
            pending,
        ).first().0 >= p.0),
    decreases inputs.len(),
{
    if inputs.len() == 0 {
    } else {
        let t = inputs.first().0;
        let a = inputs.first().1;
        let tail = inputs.drop_first();
        assert(forall|i: int| 0 <= i < tail.len() ==> tail[i] == inputs[i + 1]);
        match pending {
            None => {
                lemma_run_from_spacing(w, tail, Some(((t + w) as u64, a)));
            },
            Some(p) => {
                if t < p.0 {
                    lemma_run_from_spacing(w, tail, Some((p.0, a)));
                } else {
                    lemma_run_from_spacing(w, tail, Some(((t + w) as u64, a)));
                    let rest = run_from(w, tail, Some(((t + w) as u64, a)));
                    let whole = seq![p] + rest;
                    assert(rest.first().0 >= t + w);
                    assert(whole.first() == p);
                    assert(forall|i: int| 1 <= i < whole.len() ==> whole[i] == rest[i - 1]);
                    assert(spaced(whole, w));
                }
            },
        }
    }
}

} // verus!
