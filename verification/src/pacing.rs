//! When an output is painted. Times are nanoseconds.

use crate::geometry;
use vstd::prelude::*;

verus! {

/// How many refresh intervals to wait for word of a frame before it counts as
/// lost.
pub const MISSED_FRAME_INTERVALS: u64 = 10;

/// Paces repaints, so that none comes faster than the output refreshes and
/// none comes without a reason.
#[derive(Debug)]
pub struct FramePacer {
    pub interval: u64,
    pub redraw_pending: bool,
    pub frame_pending: bool,
    /// When the last frame began; it may lie before the start of the clock.
    pub last_frame: i128,
    pub wakeup_at: Option<i128>,
}

/// A pacer over unbounded times.
pub struct PacerModel {
    pub interval: nat,
    pub redraw: bool,
    pub pending: bool,
    pub last: int,
    pub wakeup: Option<int>,
}

impl View for FramePacer {
    type V = PacerModel;

    open spec fn view(&self) -> PacerModel {
        PacerModel {
            interval: self.interval as nat,
            redraw: self.redraw_pending,
            pending: self.frame_pending,
            last: self.last_frame as int,
            wakeup: match self.wakeup_at {
                Some(at) => Some(at as int),
                None => None,
            },
        }
    }
}

impl PacerModel {
    /// The frame is on the display.
    pub open spec fn shown(self, now: int) -> PacerModel {
        PacerModel { pending: false, last: now - self.interval, ..self }
    }

    /// The next frame is due now.
    pub open spec fn forced(self, now: int) -> PacerModel {
        PacerModel { redraw: true, pending: false, last: now - self.interval, ..self }
    }

    /// The times are those of a clock.
    pub open spec fn wf(self) -> bool {
        -(u64::MAX as int) <= self.last <= u64::MAX
    }

    /// How long ago the last frame began.
    pub open spec fn elapsed(self, now: int) -> int {
        geometry::greatest(now - self.last, 0)
    }

    /// Nothing was painted yet, and something is to be.
    pub open spec fn fresh(interval: nat, now: int) -> PacerModel {
        PacerModel { interval, redraw: true, pending: false, last: now - interval, wakeup: None }
    }

    /// A wake-up is planned that comes soon enough.
    pub open spec fn wakes_by(self, now: int, delay: int) -> bool {
        match self.wakeup {
            Some(at) => now < at <= now + delay,
            None => false,
        }
    }

    /// Plans a wake-up, unless one is planned that comes soon enough.
    pub open spec fn scheduled(self, now: int, delay: int) -> PacerModel {
        if self.wakes_by(now, delay) {
            self
        } else {
            PacerModel { wakeup: Some(now + delay), ..self }
        }
    }

    /// What is known once a redraw was asked for, or not.
    pub open spec fn asked(self, requested: bool) -> PacerModel {
        PacerModel { redraw: self.redraw || requested, ..self }
    }

    /// The last frame is on its way to the display.
    pub open spec fn waiting(self, now: int) -> bool {
        self.pending && self.elapsed(now) < self.interval * MISSED_FRAME_INTERVALS
    }

    /// A frame is due.
    pub open spec fn due(self, now: int, requested: bool) -> bool {
        !self.waiting(now) && self.asked(requested).redraw && self.elapsed(now) >= self.interval
    }

    /// The pacer after it was asked whether a frame is due.
    pub open spec fn polled(self, now: int, requested: bool) -> PacerModel {
        let asked = self.asked(requested);
        if self.waiting(now) {
            asked
        } else {
            let free = PacerModel { pending: false, ..asked };
            if !free.redraw {
                free
            } else if self.elapsed(now) < self.interval {
                free.scheduled(now, self.interval - self.elapsed(now))
            } else {
                PacerModel { redraw: false, last: now, ..free }
            }
        }
    }
}

/// What a pacer wants.
#[derive(Debug, Clone, Copy, PartialEq, Eq, Structural)]
pub struct PacerStep {
    /// A frame is due now.
    pub due: bool,
    /// A timer to set, if any.
    pub wake_after: Option<u64>,
}

impl FramePacer {
    pub fn new(interval: u64, now: u64) -> (pacer: FramePacer)
        ensures
            pacer@ == PacerModel::fresh(interval as nat, now as int),
            pacer@.wf(),
    {
        FramePacer {
            interval,
            redraw_pending: true,
            frame_pending: false,
            last_frame: now as i128 - interval as i128,
            wakeup_at: None,
        }
    }

    fn patience(&self) -> (r: u128)
        ensures
            r == self.interval * MISSED_FRAME_INTERVALS,
            r <= u64::MAX * MISSED_FRAME_INTERVALS,
    {
        let missed: u128 = MISSED_FRAME_INTERVALS as u128;
        assert(self.interval * missed <= u64::MAX * missed) by (nonlinear_arith)
            requires
                self.interval <= u64::MAX,
                missed == 10,
        ;
        self.interval as u128 * missed
    }

    fn schedule_wakeup(&mut self, now: u64, delay: u128) -> (wake: bool)
        requires
            delay <= u64::MAX * MISSED_FRAME_INTERVALS,
        ensures
            final(self)@ == old(self)@.scheduled(now as int, delay as int),
            wake == !old(self)@.wakes_by(now as int, delay as int),
    {
        let at: i128 = now as i128 + delay as i128;
        let planned = match self.wakeup_at {
            Some(scheduled) => scheduled > now as i128 && scheduled <= at,
            None => false,
        };
        if planned {
            return false;
        }
        self.wakeup_at = Some(at);
        true
    }

    /// Whether a frame is due now. `requested` says whether a redraw was
    /// asked for since the last call.
    pub fn poll(&mut self, now: u64, requested: bool) -> (step: PacerStep)
        requires
            old(self)@.wf(),
        ensures
            final(self)@ == old(self)@.polled(now as int, requested),
            final(self)@.wf(),
            step.due == old(self)@.due(now as int, requested),
            step.wake_after == (if final(self)@.wakeup != old(self)@.wakeup {
                Some((old(self)@.interval - old(self)@.elapsed(now as int)) as u64)
            } else {
                None
            }),
    {
        if requested {
            self.redraw_pending = true;
        }
        let since: i128 = now as i128 - self.last_frame;
        let elapsed: u128 = if since > 0 {
            since as u128
        } else {
            0
        };
        if self.frame_pending {
            if elapsed < self.patience() {
                return PacerStep { due: false, wake_after: None };
            }
            self.frame_pending = false;
        }
        if !self.redraw_pending {
            return PacerStep { due: false, wake_after: None };
        }
        if elapsed < self.interval as u128 {
            let delay: u64 = (self.interval as u128 - elapsed) as u64;
            let ghost before = self@;
            let wake = self.schedule_wakeup(now, delay as u128);
            proof {
                if wake {
                    assert(before.wakeup != Some(now + delay));
                }
            }
            return PacerStep {
                due: false,
                wake_after: if wake {
                    Some(delay)
                } else {
                    None
                },
            };
        }
        self.redraw_pending = false;
        self.last_frame = now as i128;
        PacerStep { due: true, wake_after: None }
    }

    /// Keeps painting while something moves; says whether a timer of one
    /// interval has to be set.
    pub fn keep_awake(&mut self, now: u64, animating: bool) -> (wake: bool)
        requires
            old(self)@.wf(),
        ensures
            final(self)@ == (if animating {
                PacerModel { redraw: true, ..old(self)@ }.scheduled(
                    now as int,
                    old(self)@.interval as int,
                )
            } else {
                old(self)@
            }),
            final(self)@.wf(),
            wake == (animating && !old(self)@.wakes_by(now as int, old(self)@.interval as int)),
    {
        if !animating {
            return false;
        }
        self.redraw_pending = true;
        self.schedule_wakeup(now, self.interval as u128)
    }

    /// A frame went out to the display; says whether a timer has to be set
    /// for the case that no word of it comes.
    pub fn frame_queued(&mut self, now: u64) -> (wake: bool)
        requires
            old(self)@.wf(),
        ensures
            final(self)@ == (PacerModel { pending: true, ..old(self)@ }.scheduled(
                now as int,
                old(self)@.interval * MISSED_FRAME_INTERVALS,
            )),
            final(self)@.wf(),
            wake == !old(self)@.wakes_by(now as int, old(self)@.interval * MISSED_FRAME_INTERVALS),
    {
        self.frame_pending = true;
        self.schedule_wakeup(now, self.patience())
    }

    /// The display shows the frame, so that the next one may begin at once.
    pub fn frame_presented(&mut self, now: u64)
        ensures
            final(self)@ == (PacerModel {
                pending: false,
                last: now - old(self)@.interval,
                ..old(self)@
            }),
            final(self)@ == old(self)@.shown(now as int),
            final(self)@.wf(),
    {
        self.frame_pending = false;
        self.last_frame = now as i128 - self.interval as i128;
    }

    /// Paints next, whatever was painted before.
    pub fn force_redraw(&mut self, now: u64)
        ensures
            final(self)@ == (PacerModel {
                redraw: true,
                pending: false,
                last: now - old(self)@.interval,
                ..old(self)@
            }),
            final(self)@ == old(self)@.forced(now as int),
            final(self)@.wf(),
    {
        self.redraw_pending = true;
        self.frame_pending = false;
        self.last_frame = now as i128 - self.interval as i128;
    }

    /// The planned timer could not be set.
    pub fn wakeup_failed(&mut self)
        ensures
            final(self)@ == (PacerModel { wakeup: None, ..old(self)@ }),
    {
        self.wakeup_at = None;
    }
}

/// After a frame, none is due before the display refreshes, however often one
/// is asked for.
pub proof fn frames_keep_the_refresh_interval(
    pacer: PacerModel,
    now: int,
    requested: bool,
    later: int,
    again: bool,
)
    requires
        pacer.wf(),
        pacer.due(now, requested),
        now <= later < now + pacer.interval,
    ensures
        !pacer.polled(now, requested).due(later, again),
{
}

/// Without a request, painting stops.
pub proof fn idle_outputs_are_not_painted(
    pacer: PacerModel,
    now: int,
    requested: bool,
    later: int,
)
    requires
        pacer.wf(),
        pacer.due(now, requested),
    ensures
        !pacer.polled(now, requested).due(later, false),
{
}

/// A request that comes too early is not lost: a wake-up is planned, and the
/// frame is due when the interval is over.
pub proof fn early_requests_are_kept(pacer: PacerModel, now: int, later: int)
    requires
        pacer.wf(),
        !pacer.pending,
        pacer.last <= now,
        now - pacer.last < pacer.interval,
        later >= pacer.last + pacer.interval,
    ensures
        !pacer.due(now, true),
        pacer.polled(now, true).wakes_by(now, pacer.interval - (now - pacer.last)),
        pacer.polled(now, true).due(later, false),
{
}

/// A frame that never reaches the display does not stop painting for good.
pub proof fn lost_frames_are_given_up(pacer: PacerModel, now: int)
    requires
        pacer.wf(),
        pacer.redraw,
        pacer.interval > 0,
        now >= pacer.last + pacer.interval * MISSED_FRAME_INTERVALS,
    ensures
        pacer.due(now, false),
{
    assert(pacer.interval * MISSED_FRAME_INTERVALS >= pacer.interval) by (nonlinear_arith)
        requires
            pacer.interval > 0,
            MISSED_FRAME_INTERVALS == 10,
    ;
}

/// Nanoseconds between two refreshes.
pub open spec fn interval_of(refresh_millihz: i32) -> int {
    1_000_000_000_000int / geometry::greatest(refresh_millihz as int, 1)
}

/// The time between two refreshes, for a rate in thousandths of a hertz.
pub fn refresh_interval(refresh_millihz: i32) -> (r: u64)
    ensures
        r == 1_000_000_000_000int / geometry::greatest(refresh_millihz as int, 1),
        r == interval_of(refresh_millihz),
{
    let refresh: u64 = if refresh_millihz >= 1 {
        refresh_millihz as u64
    } else {
        1
    };
    1_000_000_000_000 / refresh
}

} // verus!
