//! Frame timings of an output. Times are in nanoseconds.

use vstd::prelude::*;

verus! {

/// Timings are summed up over this long, five seconds.
pub const REPORT_INTERVAL: u64 = 5_000_000_000;

/// Frame timings of the most recent reporting interval, as sums and counts.
#[derive(Debug, Clone, Copy, PartialEq, Eq, Structural)]
pub struct RenderStats {
    /// Frames submitted to the display since startup.
    pub frames: u64,
    /// Repaints that produced no damage and were therefore not submitted.
    pub empty_frames: u64,
    /// Frames submitted within the interval, and how long it was.
    pub interval_frames: u32,
    pub interval: u64,
    /// Repaints within the interval, whether or not they were submitted.
    pub attempts: u32,
    /// Time spent collecting render elements.
    pub build_total: u128,
    pub render_total: u128,
    pub render_max: u64,
    /// Time between presented frames, and how often it was measured.
    pub present_total: u128,
    pub presents: u32,
}

impl Default for RenderStats {
    fn default() -> (r: Self)
        ensures
            r == no_stats(),
    {
        RenderStats {
            frames: 0,
            empty_frames: 0,
            interval_frames: 0,
            interval: 0,
            attempts: 0,
            build_total: 0,
            render_total: 0,
            render_max: 0,
            present_total: 0,
            presents: 0,
        }
    }
}

/// Nothing has been measured yet.
pub open spec fn no_stats() -> RenderStats {
    RenderStats {
        frames: 0,
        empty_frames: 0,
        interval_frames: 0,
        interval: 0,
        attempts: 0,
        build_total: 0,
        render_total: 0,
        render_max: 0,
        present_total: 0,
        presents: 0,
    }
}

/// Accumulates frame timings for one output and periodically reports them.
#[derive(Debug)]
pub struct FrameTimer {
    pub output: String,
    pub window_start: u64,
    pub frames: u32,
    pub empty_frames: u32,
    pub build: u128,
    pub render: u128,
    pub render_max: u64,
    pub last_present: Option<u64>,
    pub present_intervals: u128,
    pub presents: u32,
    pub total_frames: u64,
    pub total_empty_frames: u64,
}

/// What a timer has measured, as contracts see it.
pub struct TimerModel {
    pub output: Seq<char>,
    pub window_start: u64,
    pub frames: u32,
    pub empty_frames: u32,
    pub build: u128,
    pub render: u128,
    pub render_max: u64,
    pub last_present: Option<u64>,
    pub present_intervals: u128,
    pub presents: u32,
    pub total_frames: u64,
    pub total_empty_frames: u64,
}

impl View for FrameTimer {
    type V = TimerModel;

    open spec fn view(&self) -> TimerModel {
        TimerModel {
            output: self.output@,
            window_start: self.window_start,
            frames: self.frames,
            empty_frames: self.empty_frames,
            build: self.build,
            render: self.render,
            render_max: self.render_max,
            last_present: self.last_present,
            present_intervals: self.present_intervals,
            presents: self.presents,
            total_frames: self.total_frames,
            total_empty_frames: self.total_empty_frames,
        }
    }
}

impl TimerModel {
    /// The sums are no larger than what was counted can account for.
    pub open spec fn wf(self) -> bool {
        &&& self.frames + self.empty_frames <= u32::MAX
        &&& self.build <= (self.frames + self.empty_frames) * u64::MAX
        &&& self.render <= (self.frames + self.empty_frames) * u64::MAX
        &&& self.present_intervals <= self.presents * REPORT_INTERVAL
    }

    /// The counters have room for another frame.
    pub open spec fn has_room(self) -> bool {
        &&& self.frames + self.empty_frames < u32::MAX
        &&& self.total_frames < u64::MAX
        &&& self.total_empty_frames < u64::MAX
    }

    /// A repaint took `build` and `render`; only a damaged one counts as a
    /// frame.
    pub open spec fn recorded(self, build: u64, render: u64, damaged: bool) -> TimerModel {
        TimerModel {
            build: (self.build + build) as u128,
            render: (self.render + render) as u128,
            render_max: if render > self.render_max {
                render
            } else {
                self.render_max
            },
            frames: if damaged {
                (self.frames + 1) as u32
            } else {
                self.frames
            },
            total_frames: if damaged {
                (self.total_frames + 1) as u64
            } else {
                self.total_frames
            },
            empty_frames: if damaged {
                self.empty_frames
            } else {
                (self.empty_frames + 1) as u32
            },
            total_empty_frames: if damaged {
                self.total_empty_frames
            } else {
                (self.total_empty_frames + 1) as u64
            },
            ..self
        }
    }

    /// A frame was presented. The time since the one before counts unless
    /// it is as long as an interval.
    pub open spec fn presented(self, now: u64) -> TimerModel {
        let seen = TimerModel { last_present: Some(now), ..self };
        match self.last_present {
            Some(last) => {
                let interval = if now >= last {
                    now - last
                } else {
                    0
                };
                if interval < REPORT_INTERVAL {
                    TimerModel {
                        present_intervals: (self.present_intervals + interval) as u128,
                        presents: (self.presents + 1) as u32,
                        ..seen
                    }
                } else {
                    seen
                }
            },
            None => seen,
        }
    }

    /// The interval is over.
    pub open spec fn due(self, now: u64) -> bool {
        now - self.window_start >= REPORT_INTERVAL
    }

    /// What is reported at the end of an interval.
    pub open spec fn report(self, now: u64) -> RenderStats {
        RenderStats {
            frames: self.total_frames,
            empty_frames: self.total_empty_frames,
            interval_frames: self.frames,
            interval: (now - self.window_start) as u64,
            attempts: (self.frames + self.empty_frames) as u32,
            build_total: self.build,
            render_total: self.render,
            render_max: self.render_max,
            present_total: self.present_intervals,
            presents: self.presents,
        }
    }

    /// The next interval begins.
    pub open spec fn restarted(self, now: u64) -> TimerModel {
        TimerModel {
            window_start: now,
            frames: 0,
            empty_frames: 0,
            build: 0,
            render: 0,
            render_max: 0,
            present_intervals: 0,
            presents: 0,
            ..self
        }
    }
}

impl FrameTimer {
    /// Begins to measure.
    pub fn new(output: &str, now: u64) -> (r: Self)
        ensures
            r@ == (TimerModel {
                output: output@,
                window_start: now,
                frames: 0,
                empty_frames: 0,
                build: 0,
                render: 0,
                render_max: 0,
                last_present: None,
                present_intervals: 0,
                presents: 0,
                total_frames: 0,
                total_empty_frames: 0,
            }),
            r@.wf(),
    {
        FrameTimer {
            output: output.to_owned(),
            window_start: now,
            frames: 0,
            empty_frames: 0,
            build: 0,
            render: 0,
            render_max: 0,
            last_present: None,
            present_intervals: 0,
            presents: 0,
            total_frames: 0,
            total_empty_frames: 0,
        }
    }

    /// Takes note of a repaint.
    pub fn record_frame(&mut self, build: u64, render: u64, damaged: bool)
        requires
            old(self)@.wf(),
            old(self)@.has_room(),
        ensures
            final(self)@ == old(self)@.recorded(build, render, damaged),
            final(self)@.wf(),
    {
        let ghost count = self.frames + self.empty_frames;
        proof {
            assert(count * u64::MAX + u64::MAX == (count + 1) * u64::MAX) by (nonlinear_arith);
            assert((count + 1) * u64::MAX <= u32::MAX * u64::MAX) by (nonlinear_arith)
                requires
                    0 <= count < u32::MAX,
            ;
        }
        self.build = self.build + build as u128;
        self.render = self.render + render as u128;
        if render > self.render_max {
            self.render_max = render;
        }
        if damaged {
            self.frames = self.frames + 1;
            self.total_frames = self.total_frames + 1;
        } else {
            self.empty_frames = self.empty_frames + 1;
            self.total_empty_frames = self.total_empty_frames + 1;
        }
    }

    /// Takes note of a presented frame.
    pub fn record_presented(&mut self, now: u64)
        requires
            old(self)@.wf(),
            old(self)@.presents < u32::MAX,
        ensures
            final(self)@ == old(self)@.presented(now),
            final(self)@.wf(),
    {
        let ghost count = self.presents as int;
        proof {
            assert(count * REPORT_INTERVAL + REPORT_INTERVAL == (count + 1) * REPORT_INTERVAL)
                by (nonlinear_arith);
            assert((count + 1) * REPORT_INTERVAL <= u32::MAX * REPORT_INTERVAL)
                by (nonlinear_arith)
                requires
                    0 <= count < u32::MAX,
            ;
        }
        let last = self.last_present;
        self.last_present = Some(now);
        if let Some(last) = last {
            let interval: u64 = if now >= last { now - last } else { 0 };
            if interval < REPORT_INTERVAL {
                self.present_intervals = self.present_intervals + interval as u128;
                self.presents = self.presents + 1;
            }
        }
    }

    /// The next presented frame has none before it.
    pub fn reset_presentation(&mut self)
        ensures
            final(self)@ == (TimerModel { last_present: None, ..old(self)@ }),
    {
        self.last_present = None;
    }

    /// Publishes a summary once per report interval.
    pub fn maybe_report(&mut self, stats: &mut RenderStats, now: u64)
        requires
            old(self)@.wf(),
        ensures
            final(self)@.wf(),
            old(self)@.due(now) ==> *final(stats) == old(self)@.report(now) && final(self)@ == old(
                self,
            )@.restarted(now),
            !old(self)@.due(now) ==> *final(stats) == *old(stats) && final(self)@ == old(self)@,
    {
        if now < self.window_start || now - self.window_start < REPORT_INTERVAL {
            return ;
        }
        *stats =
        RenderStats {
            frames: self.total_frames,
            empty_frames: self.total_empty_frames,
            interval_frames: self.frames,
            interval: now - self.window_start,
            attempts: self.frames + self.empty_frames,
            build_total: self.build,
            render_total: self.render,
            render_max: self.render_max,
            present_total: self.present_intervals,
            presents: self.presents,
        };
        self.window_start = now;
        self.frames = 0;
        self.empty_frames = 0;
        self.build = 0;
        self.render = 0;
        self.render_max = 0;
        self.present_intervals = 0;
        self.presents = 0;
    }
}

/// A report counts every frame that was ever recorded: what is reported next
/// is what was reported before and the frames since.
pub proof fn reports_count_every_frame(
    timer: TimerModel,
    now: u64,
    build: u64,
    render: u64,
    damaged: bool,
    later: u64,
)
    requires
        timer.wf(),
        timer.has_room(),
    ensures
        ({
            let next = timer.restarted(now).recorded(build, render, damaged).report(later);
            &&& next.frames == timer.report(now).frames + (if damaged {
                1int
            } else {
                0
            })
            &&& next.empty_frames == timer.report(now).empty_frames + (if damaged {
                0int
            } else {
                1
            })
            &&& next.attempts == 1
            &&& next.build_total == build
            &&& next.render_max == render
        }),
{
}

} // verus!
