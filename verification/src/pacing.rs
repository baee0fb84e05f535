//! Pacing of decoded frames against the time elapsed since playback
//! started. A frame that is early waits for its due time; a frame that is
//! late is shown at once; no frame is dropped.

use vstd::prelude::*;

verus! {

/// Nanoseconds in a second.
pub const NANOS_PER_SECOND: u64 = 1_000_000_000;

/// How the due time of a frame is found.
#[derive(Clone, Copy, Debug, PartialEq, Eq, Structural)]
pub enum Pacing {
    /// Each frame is due at its own presentation time.
    Presentation,
    /// Frame `n`, counted from zero, is due `n` intervals after the start:
    /// the schedule runs on across frames, whatever time each one took.
    TargetRate { frame_interval_ns: u64 },
}

/// What the video pipeline does with the frame it has just decoded.
#[derive(Clone, Copy, Debug, PartialEq, Eq, Structural)]
pub enum FrameStep {
    /// A stop was asked for: leave the loop, showing nothing more.
    Exit,
    /// Wait for this long, then convert the frame and show it.
    Present { wait_ns: u64 },
}

/// How showing a frame went.
#[derive(Clone, Copy, Debug, PartialEq, Eq, Structural)]
pub enum FrameOutcome {
    Rendered,
    Failed,
}

/// `value`, or `limit` where it is beyond.
pub open spec fn at_most(value: int, limit: int) -> int {
    if value > limit {
        limit
    } else {
        value
    }
}

/// Due time in nanoseconds of the frame with the given index and
/// presentation time, held to 64 bits.
pub open spec fn due_time(pacing: Pacing, index: int, presentation_ns: int) -> int {
    match pacing {
        Pacing::Presentation => presentation_ns,
        Pacing::TargetRate { frame_interval_ns } => at_most(
            index * frame_interval_ns,
            u64::MAX as int,
        ),
    }
}

/// Time left until `due_ns`, none if it has passed.
pub open spec fn wait_time(due_ns: int, elapsed_ns: int) -> int {
    if due_ns > elapsed_ns {
        due_ns - elapsed_ns
    } else {
        0
    }
}

/// Length of a frame at `numerator / denominator` frames per second, in
/// whole nanoseconds.
pub open spec fn interval_of(numerator: int, denominator: int) -> int {
    (NANOS_PER_SECOND * denominator) / numerator
}

/// A time stamp of `ticks` units of `numerator / denominator` seconds, in
/// whole nanoseconds.
pub open spec fn nanos_of(ticks: int, numerator: int, denominator: int) -> int {
    (ticks * numerator * NANOS_PER_SECOND) / denominator
}

/// Length of a frame at the rate `numerator / denominator` frames per
/// second. A rate of zero has none.
pub fn frame_interval_ns(numerator: u32, denominator: u32) -> (interval: Option<u64>)
    ensures
        numerator == 0 <==> interval is None,
        interval is Some ==> interval->0 == interval_of(numerator as int, denominator as int),
{
    if numerator == 0 {
        None
    } else {
        Some((NANOS_PER_SECOND * denominator as u64) / numerator as u64)
    }
}

/// Presentation time of a frame stamped `ticks` in a stream whose time base
/// is `numerator / denominator` seconds. There is none where the time base
/// has a zero denominator, or where the time is beyond 64 bits of
/// nanoseconds.
pub fn presentation_ns(ticks: u64, numerator: u32, denominator: u32) -> (time: Option<u64>)
    ensures
        time is Some <==> denominator != 0 && nanos_of(
            ticks as int,
            numerator as int,
            denominator as int,
        ) <= u64::MAX,
        time is Some ==> time->0 == nanos_of(ticks as int, numerator as int, denominator as int),
{
    if denominator == 0 {
        return None;
    }
    proof {
        assert(ticks * numerator <= u64::MAX * u32::MAX) by (nonlinear_arith)
            requires
                ticks <= u64::MAX,
                numerator <= u32::MAX,
        ;
        assert(ticks * numerator * NANOS_PER_SECOND <= u64::MAX * u32::MAX * NANOS_PER_SECOND)
            by (nonlinear_arith)
            requires
                ticks * numerator <= u64::MAX * u32::MAX,
        ;
    }
    let scaled: u128 = ticks as u128 * numerator as u128 * NANOS_PER_SECOND as u128;
    let nanos: u128 = scaled / denominator as u128;
    if nanos > u64::MAX as u128 {
        None
    } else {
        Some(nanos as u64)
    }
}

/// Time left until `due_ns` when `elapsed_ns` have passed.
pub fn wait_ns(due_ns: u64, elapsed_ns: u64) -> (wait: u64)
    ensures
        wait == wait_time(due_ns as int, elapsed_ns as int),
{
    if due_ns > elapsed_ns {
        due_ns - elapsed_ns
    } else {
        0
    }
}

/// What a video pipeline has done so far.
pub struct Progress {
    pub pacing: Pacing,
    /// Frames that went through pacing.
    pub timed: int,
    /// Frames shown.
    pub rendered: int,
    /// Frames whose conversion or drawing failed.
    pub failed: int,
}

/// The video pipeline of one playback: its pacing and its counts.
#[derive(Clone, Copy, Debug)]
pub struct VideoPipeline {
    pacing: Pacing,
    timed: u64,
    rendered: u64,
    failed: u64,
}

impl View for VideoPipeline {
    type V = Progress;

    closed spec fn view(&self) -> Progress {
        Progress {
            pacing: self.pacing,
            timed: self.timed as int,
            rendered: self.rendered as int,
            failed: self.failed as int,
        }
    }
}

/// One more than a count, held to 64 bits.
fn bump(count: u64) -> (next: u64)
    ensures
        next == at_most(count + 1, u64::MAX as int),
{
    if count < u64::MAX {
        count + 1
    } else {
        count
    }
}

impl VideoPipeline {
    /// A pipeline that has seen no frame.
    pub fn new(pacing: Pacing) -> (pipeline: VideoPipeline)
        ensures
            pipeline@ == (Progress { pacing, timed: 0, rendered: 0, failed: 0 }),
    {
        VideoPipeline { pacing, timed: 0, rendered: 0, failed: 0 }
    }

    /// Frames shown so far.
    pub fn rendered(&self) -> (count: u64)
        ensures
            count == self@.rendered,
    {
        self.rendered
    }

    /// Frames whose conversion or drawing failed so far.
    pub fn failed(&self) -> (count: u64)
        ensures
            count == self@.failed,
    {
        self.failed
    }

    /// Frames that went through pacing so far.
    pub fn timed(&self) -> (count: u64)
        ensures
            count == self@.timed,
    {
        self.timed
    }

    /// Decides on the frame just decoded. With a stop asked for the
    /// pipeline leaves and nothing is counted. Otherwise the frame is
    /// shown, after the time left until it is due.
    pub fn next_frame(&mut self, stop: bool, presentation_ns: u64, elapsed_ns: u64) -> (step:
        FrameStep)
        ensures
            stop ==> step == FrameStep::Exit && final(self)@ == old(self)@,
            !stop ==> step == (FrameStep::Present {
                wait_ns: wait_time(
                    due_time(old(self)@.pacing, old(self)@.timed, presentation_ns as int),
                    elapsed_ns as int,
                ) as u64,
            }),
            !stop ==> final(self)@ == (Progress {
                timed: at_most(old(self)@.timed + 1, u64::MAX as int),
                ..old(self)@
            }),
    {
        if stop {
            return FrameStep::Exit;
        }
        let due: u64 = match self.pacing {
            Pacing::Presentation => presentation_ns,
            Pacing::TargetRate { frame_interval_ns } => {
                proof {
                    assert(self.timed * frame_interval_ns <= u64::MAX * u64::MAX)
                        by (nonlinear_arith)
                        requires
                            self.timed <= u64::MAX,
                            frame_interval_ns <= u64::MAX,
                    ;
                }
                let product: u128 = self.timed as u128 * frame_interval_ns as u128;
                if product > u64::MAX as u128 {
                    u64::MAX
                } else {
                    product as u64
                }
            },
        };
        self.timed = bump(self.timed);
        FrameStep::Present { wait_ns: wait_ns(due, elapsed_ns) }
    }

    /// Counts how showing a frame went. A failure is counted and nothing
    /// else: the pipeline goes on with the next frame.
    pub fn record(&mut self, outcome: FrameOutcome)
        ensures
            outcome == FrameOutcome::Rendered ==> final(self)@ == (Progress {
                rendered: at_most(old(self)@.rendered + 1, u64::MAX as int),
                ..old(self)@
            }),
            outcome == FrameOutcome::Failed ==> final(self)@ == (Progress {
                failed: at_most(old(self)@.failed + 1, u64::MAX as int),
                ..old(self)@
            }),
    {
        match outcome {
            FrameOutcome::Rendered => {
                self.rendered = bump(self.rendered);
            },
            FrameOutcome::Failed => {
                self.failed = bump(self.failed);
            },
        }
    }
}

/// A frame is never shown before it is due, and never held once it is: the
/// wait ends exactly at the due time, or is nothing where that has passed.
pub proof fn lemma_wait_meets_due(due_ns: int, elapsed_ns: int)
    ensures
        0 <= wait_time(due_ns, elapsed_ns),
        elapsed_ns + wait_time(due_ns, elapsed_ns) >= due_ns,
        elapsed_ns >= due_ns ==> wait_time(due_ns, elapsed_ns) == 0,
        elapsed_ns < due_ns ==> elapsed_ns + wait_time(due_ns, elapsed_ns) == due_ns,
{
}

/// At a target rate the due time of a frame depends on its index alone,
/// not on its time stamp, and later frames are never due earlier.
pub proof fn lemma_target_rate_due(
    frame_interval_ns: u64,
    earlier: int,
    later: int,
    earlier_stamp: int,
    later_stamp: int,
)
    requires
        0 <= earlier <= later,
    ensures
        due_time(Pacing::TargetRate { frame_interval_ns }, earlier, earlier_stamp) <= due_time(
            Pacing::TargetRate { frame_interval_ns },
            later,
            later_stamp,
        ),
        earlier == later ==> due_time(
            Pacing::TargetRate { frame_interval_ns },
            earlier,
            earlier_stamp,
        ) == due_time(Pacing::TargetRate { frame_interval_ns }, later, later_stamp),
{
    assert(earlier * frame_interval_ns <= later * frame_interval_ns) by (nonlinear_arith)
        requires
            0 <= earlier <= later,
            0 <= frame_interval_ns,
    ;
}

} // verus!
