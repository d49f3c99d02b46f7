//! The capture -> encode -> send loop: what to do with each frame.
//!
//! The loop itself (waiting for frames, converting, encoding, sending) runs
//! outside. It reports what happened to a [`CaptureLoop`], which says what to
//! do next:
//!
//! 1. [`CaptureLoop::begin`]: stop, switch to another source, or wait for a
//!    frame;
//! 2. [`CaptureLoop::on_frame`]: what to do with what came.
//!    Where either asks for a new stack: [`CaptureLoop::built`] or
//!    [`CaptureLoop::build_failed`];
//! 3. for a frame that is to be encoded: [`CaptureLoop::force_idr`], then
//!    [`CaptureLoop::on_encoded`] and [`CaptureLoop::on_sent`];
//! 4. unless the frame was dropped: [`CaptureLoop::tick`], and
//!    [`CaptureLoop::finish_tick`] if that gave a report.
use vstd::prelude::*;

use crate::args::{source_of, Args};
use crate::capture::{Backend, CaptureSource};
use crate::frame_sender::{FrameSender, SenderView};
use crate::pacing::{
    due_after, frame_duration, frame_duration_of, is_due, lemma_frame_duration,
    NANOS_PER_SEC,
};
use crate::status::FrameRate;

verus! {

/// How long to wait for a frame, in milliseconds.
pub const FRAME_TIMEOUT_MS: u32 = 100;

/// How long to wait for the frame of a one-shot check of the color data, in
/// milliseconds.
pub const DEBUG_FRAME_TIMEOUT_MS: u32 = 200;

/// How many encoded frames may wait to be sent. If sending can't keep up,
/// frames are dropped rather than letting latency grow unbounded.
pub const SEND_QUEUE_LEN: usize = 3;

/// What to build a capture -> color-convert -> encode stack for.
#[derive(Debug, Clone, Copy, PartialEq, Eq, Structural)]
pub struct StackRequest {
    pub source: CaptureSource,
    pub backend: Backend,
    pub fps: u32,
    pub bitrate_bps: u32,
}

/// The frames encoded since the last report.
#[derive(Debug, Clone, Copy, PartialEq, Eq, Structural)]
pub struct FrameStats {
    /// Frames that were sent, or dropped because the queue was full.
    pub frames: u32,
    pub bytes_sum: u64,
    /// The size of the smallest frame; `usize::MAX` if there was none.
    pub bytes_min: usize,
    pub bytes_max: usize,
}

/// No frames yet.
pub open spec fn no_frames() -> FrameStats {
    FrameStats { frames: 0, bytes_sum: 0, bytes_min: usize::MAX, bytes_max: 0 }
}

/// What the loop remembers. Times are in nanoseconds.
#[derive(Debug, Clone, Copy, PartialEq, Eq, Structural)]
pub struct CaptureLoop {
    /// The API that the settings ask for.
    pub backend: Backend,
    pub fps: u32,
    pub frame_duration: u64,
    /// What is being captured.
    pub source: CaptureSource,
    /// The bitrate that the encoder is set to.
    pub bitrate_bps: u32,
    /// Frames encoded since the encoder was built.
    pub frame_count: u64,
    /// When the next frame is due.
    pub next_due: u128,
    /// Whether an encoded frame was dropped right before sending, which
    /// breaks the reference chain.
    pub need_idr_after_skip: bool,
    /// When the last report was made.
    pub last_log: u128,
    pub stats: FrameStats,
}

/// What came of waiting for a frame.
#[derive(Debug, Clone, Copy, PartialEq, Eq, Structural)]
pub enum CaptureFrame {
    Frame,
    Timeout,
    /// The capture session was lost and has been set up again.
    Recovered,
    /// The capture session was lost for good.
    GiveUp,
}

/// What to do at the start of a round.
#[derive(Debug, Clone, Copy, PartialEq, Eq, Structural)]
pub enum Begin {
    /// End the stream.
    Stop,
    /// Build this stack ([`Attempted::Switch`]), then wait for a frame.
    Switch(StackRequest),
    /// Wait for a frame.
    Capture,
}

/// What to do with what came of waiting.
#[derive(Debug, Clone, Copy, PartialEq, Eq, Structural)]
pub enum FrameStep {
    /// Build this stack ([`Attempted::Fallback`]).
    Rebuild(StackRequest),
    /// Too early for the requested rate: go on with the next round.
    TooEarly,
    /// The send side is backed up: go on with the next round.
    BackedUp,
    /// Convert, encode and send the frame.
    Encode,
    /// Nothing came.
    Idle,
}

/// What a stack was being built for.
#[derive(Debug, Clone, Copy, PartialEq, Eq, Structural)]
pub enum Attempted {
    /// The user wants to switch to another source.
    Switch,
    /// The capture session was lost for good.
    Fallback,
}

/// What to do after a stack could not be built.
#[derive(Debug, Clone, Copy, PartialEq, Eq, Structural)]
pub enum AfterFailure {
    /// Go on with the stack at hand, which captures this source.
    Keep { source: CaptureSource },
    /// End the stream with the error.
    End,
}

/// What came of handing an encoded frame to the send side.
#[derive(Debug, Clone, Copy, PartialEq, Eq, Structural)]
pub enum SendOutcome {
    Sent,
    Full,
    /// Nobody receives any more.
    Closed,
}

/// What to do after an encoded frame was handed to the send side.
#[derive(Debug, Clone, Copy, PartialEq, Eq, Structural)]
pub enum AfterSend {
    /// See whether a report is due.
    Tick,
    /// Go on with the next round.
    NextRound,
    /// End the stream.
    Stop,
}

/// What happened since the last report.
#[derive(Debug, Clone, Copy, PartialEq, Eq, Structural)]
pub struct Report {
    pub rate: FrameRate,
    /// The sizes of the frames; the smallest is 0 if there was none.
    pub bytes_min: usize,
    pub bytes_max: usize,
    pub bytes_sum: u64,
    /// The bitrate to set the encoder to, if it is to change.
    pub reconfigure: Option<u32>,
}

// ---------------------------------------------------------------------
// The transitions
// ---------------------------------------------------------------------

/// The loop before the first round.
pub open spec fn loop_start(args: crate::args::ArgsView, now: u128) -> CaptureLoop {
    CaptureLoop {
        backend: args.capture_backend,
        fps: args.fps,
        frame_duration: frame_duration_of(args.fps) as u64,
        source: source_of(args),
        bitrate_bps: args.bitrate_bps,
        frame_count: 0,
        next_due: now,
        need_idr_after_skip: false,
        last_log: now,
        stats: no_frames(),
    }
}

/// A stack for `source`, with the encoder at its current bitrate.
pub open spec fn stack_for(l: CaptureLoop, source: CaptureSource, backend: Backend) -> StackRequest {
    StackRequest { source, backend, fps: l.fps, bitrate_bps: l.bitrate_bps }
}

/// After a new stack was built for `source`: its encoder starts a fresh
/// reference chain.
pub open spec fn after_build(l: CaptureLoop, source: CaptureSource, now: u128) -> CaptureLoop {
    CaptureLoop { source, frame_count: 0, next_due: now, need_idr_after_skip: false, ..l }
}

/// What to do with what came of waiting, with room for `capacity` more
/// frames on the send side.
pub open spec fn frame_step(
    l: CaptureLoop,
    frame: CaptureFrame,
    now: u128,
    capacity: usize,
) -> FrameStep {
    match frame {
        CaptureFrame::GiveUp => FrameStep::Rebuild(stack_for(l, l.source, Backend::ForceWgc)),
        CaptureFrame::Frame => if !is_due(l.next_due as int, now as int) {
            FrameStep::TooEarly
        } else if capacity == 0 {
            FrameStep::BackedUp
        } else {
            FrameStep::Encode
        },
        CaptureFrame::Timeout => FrameStep::Idle,
        CaptureFrame::Recovered => FrameStep::Idle,
    }
}

/// After waiting for a frame: one that was due moves the schedule on,
/// whether or not there was room for it.
pub open spec fn after_frame(l: CaptureLoop, frame: CaptureFrame, now: u128) -> CaptureLoop {
    if frame == CaptureFrame::Frame && is_due(l.next_due as int, now as int) {
        CaptureLoop {
            next_due: due_after(l.next_due as int, now as int, l.frame_duration as nat) as u128,
            ..l
        }
    } else {
        l
    }
}

/// Whether the next frame must be a keyframe whatever the viewers ask for:
/// it is the encoder's first, or the reference chain is broken.
pub open spec fn keyframe_due(l: CaptureLoop) -> bool {
    l.frame_count == 0 || l.need_idr_after_skip
}

/// Whether the next frame is encoded as a keyframe, given whether a viewer
/// asks for one.
pub open spec fn forced(l: CaptureLoop, requested: bool) -> bool {
    keyframe_due(l) || requested
}

/// After a frame was encoded to `len` bytes.
pub open spec fn after_encode(l: CaptureLoop, len: usize) -> CaptureLoop {
    CaptureLoop {
        stats: FrameStats {
            bytes_sum: (l.stats.bytes_sum + len) as u64,
            bytes_min: if len < l.stats.bytes_min {
                len
            } else {
                l.stats.bytes_min
            },
            bytes_max: if len > l.stats.bytes_max {
                len
            } else {
                l.stats.bytes_max
            },
            ..l.stats
        },
        ..l
    }
}

/// After an encoded frame was handed to the send side.
pub open spec fn after_send(l: CaptureLoop, outcome: SendOutcome) -> CaptureLoop {
    if outcome == SendOutcome::Closed {
        CaptureLoop { need_idr_after_skip: false, ..l }
    } else {
        CaptureLoop {
            need_idr_after_skip: outcome == SendOutcome::Full,
            frame_count: (l.frame_count + 1) as u64,
            stats: FrameStats { frames: (l.stats.frames + 1) as u32, ..l.stats },
            ..l
        }
    }
}

/// Whether a report is due: a second has passed since the last one.
pub open spec fn report_due(l: CaptureLoop, now: u128) -> bool {
    now - l.last_log >= NANOS_PER_SEC
}

/// The report that is due, given the bitrate that the viewers want.
pub open spec fn report_of(l: CaptureLoop, now: u128, target_bps: u32) -> Report {
    Report {
        rate: FrameRate { frames: l.stats.frames, nanos: (now - l.last_log) as u128 },
        bytes_min: if l.stats.bytes_min == usize::MAX {
            0
        } else {
            l.stats.bytes_min
        },
        bytes_max: l.stats.bytes_max,
        bytes_sum: l.stats.bytes_sum,
        reconfigure: if target_bps != l.bitrate_bps {
            Some(target_bps)
        } else {
            None
        },
    }
}

/// After a report, with the bitrate that the encoder was set to on that
/// occasion.
pub open spec fn after_report(l: CaptureLoop, applied: Option<u32>, now: u128) -> CaptureLoop {
    CaptureLoop {
        bitrate_bps: match applied {
            Some(bitrate) => bitrate,
            None => l.bitrate_bps,
        },
        last_log: now,
        stats: no_frames(),
        ..l
    }
}

// ---------------------------------------------------------------------
// The loop
// ---------------------------------------------------------------------

/// The stack to build before the first round.
pub fn first_stack(args: &Args) -> (request: StackRequest)
    ensures
        request == (StackRequest {
            source: source_of(args@),
            backend: args.capture_backend,
            fps: args.fps,
            bitrate_bps: args.bitrate_bps,
        }),
{
    StackRequest {
        source: args.source(),
        backend: args.capture_backend,
        fps: args.fps,
        bitrate_bps: args.bitrate_bps,
    }
}

impl FrameStats {
    /// No frames yet.
    fn none() -> (stats: Self)
        ensures
            stats == no_frames(),
    {
        FrameStats { frames: 0, bytes_sum: 0, bytes_min: usize::MAX, bytes_max: 0 }
    }
}

impl CaptureLoop {
    /// The loop before the first round.
    pub fn new(args: &Args, now: u128) -> (l: Self)
        requires
            args.fps > 0,
        ensures
            l == loop_start(args@, now),
            l.frame_duration == frame_duration_of(args.fps),
    {
        CaptureLoop {
            backend: args.capture_backend,
            fps: args.fps,
            frame_duration: frame_duration(args.fps),
            source: args.source(),
            bitrate_bps: args.bitrate_bps,
            frame_count: 0,
            next_due: now,
            need_idr_after_skip: false,
            last_log: now,
            stats: FrameStats::none(),
        }
    }

    fn stack(&self, source: CaptureSource, backend: Backend) -> (request: StackRequest)
        ensures
            request == stack_for(*self, source, backend),
    {
        StackRequest { source, backend, fps: self.fps, bitrate_bps: self.bitrate_bps }
    }

    /// What to do at the start of a round, given whether the user wants the
    /// stream to end and what the user wants to switch to.
    pub fn begin(&self, stop: bool, switch_target: Option<CaptureSource>) -> (what: Begin)
        ensures
            what == if stop {
                Begin::Stop
            } else {
                match switch_target {
                    Some(source) => Begin::Switch(stack_for(*self, source, self.backend)),
                    None => Begin::Capture,
                }
            },
    {
        if stop {
            Begin::Stop
        } else {
            match switch_target {
                Some(source) => Begin::Switch(self.stack(source, self.backend)),
                None => Begin::Capture,
            }
        }
    }

    /// A new stack has been built.
    pub fn built(&mut self, source: CaptureSource, now: u128)
        ensures
            *final(self) == after_build(*old(self), source, now),
    {
        self.source = source;
        self.frame_count = 0;
        self.next_due = now;
        self.need_idr_after_skip = false;
    }

    /// What to do after a stack could not be built: a failed switch leaves
    /// everything as it was, a failed fallback leaves nothing to go on with.
    pub fn build_failed(&self, during: Attempted) -> (what: AfterFailure)
        ensures
            what == match during {
                Attempted::Switch => AfterFailure::Keep { source: self.source },
                Attempted::Fallback => AfterFailure::End,
            },
    {
        match during {
            Attempted::Switch => AfterFailure::Keep { source: self.source },
            Attempted::Fallback => AfterFailure::End,
        }
    }

    /// What to do with what came of waiting for a frame, with room for
    /// `capacity` more frames on the send side.
    pub fn on_frame(&mut self, frame: CaptureFrame, now: u128, capacity: usize) -> (step: FrameStep)
        requires
            now + old(self).frame_duration <= u128::MAX,
        ensures
            *final(self) == after_frame(*old(self), frame, now),
            step == frame_step(*old(self), frame, now, capacity),
    {
        match frame {
            CaptureFrame::GiveUp => FrameStep::Rebuild(self.stack(self.source, Backend::ForceWgc)),
            CaptureFrame::Frame => {
                if now < self.next_due {
                    return FrameStep::TooEarly;
                }
                let mut next_due: u128 = self.next_due + self.frame_duration as u128;
                if next_due < now {
                    next_due = now + self.frame_duration as u128;
                }
                self.next_due = next_due;
                if capacity == 0 {
                    FrameStep::BackedUp
                } else {
                    FrameStep::Encode
                }
            },
            CaptureFrame::Timeout => FrameStep::Idle,
            CaptureFrame::Recovered => FrameStep::Idle,
        }
    }

    /// Whether the frame at hand is encoded as a keyframe. The viewers'
    /// request is taken up only if there is no other reason for one.
    pub fn force_idr<T>(&self, sender: &mut FrameSender<T>) -> (force: bool)
        ensures
            force == forced(*self, old(sender)@.force_idr),
            final(sender)@ == if keyframe_due(*self) {
                old(sender)@
            } else {
                SenderView { force_idr: false, ..old(sender)@ }
            },
    {
        self.frame_count == 0 || self.need_idr_after_skip || sender.take_force_idr()
    }

    /// Takes note of a frame encoded to `len` bytes. The result says whether
    /// it is worth a line in the log: the first few, and keyframes, are.
    pub fn on_encoded(&mut self, len: usize, force_idr: bool) -> (noteworthy: bool)
        requires
            old(self).stats.bytes_sum + len <= u64::MAX,
        ensures
            *final(self) == after_encode(*old(self), len),
            noteworthy == (old(self).frame_count < 3 || force_idr),
    {
        self.stats.bytes_sum = self.stats.bytes_sum + len as u64;
        if len < self.stats.bytes_min {
            self.stats.bytes_min = len;
        }
        if len > self.stats.bytes_max {
            self.stats.bytes_max = len;
        }
        self.frame_count < 3 || force_idr
    }

    /// Takes note of what came of handing an encoded frame to the send side.
    pub fn on_sent(&mut self, outcome: SendOutcome) -> (what: AfterSend)
        requires
            old(self).frame_count < u64::MAX,
            old(self).stats.frames < u32::MAX,
        ensures
            *final(self) == after_send(*old(self), outcome),
            what == match outcome {
                SendOutcome::Sent => AfterSend::Tick,
                SendOutcome::Full => AfterSend::NextRound,
                SendOutcome::Closed => AfterSend::Stop,
            },
    {
        match outcome {
            SendOutcome::Full => {
                self.need_idr_after_skip = true;
                self.frame_count = self.frame_count + 1;
                self.stats.frames = self.stats.frames + 1;
                AfterSend::NextRound
            },
            SendOutcome::Closed => {
                self.need_idr_after_skip = false;
                AfterSend::Stop
            },
            SendOutcome::Sent => {
                self.need_idr_after_skip = false;
                self.frame_count = self.frame_count + 1;
                self.stats.frames = self.stats.frames + 1;
                AfterSend::Tick
            },
        }
    }

    /// Reports once a second, and says whether the encoder is to be set to
    /// the bitrate that the viewers want.
    pub fn tick(&self, now: u128, target_bps: u32) -> (report: Option<Report>)
        ensures
            report == if report_due(*self, now) {
                Some(report_of(*self, now, target_bps))
            } else {
                None
            },
    {
        if now < self.last_log || now - self.last_log < NANOS_PER_SEC as u128 {
            return None;
        }
        Some(
            Report {
                rate: FrameRate { frames: self.stats.frames, nanos: now - self.last_log },
                bytes_min: if self.stats.bytes_min == usize::MAX {
                    0
                } else {
                    self.stats.bytes_min
                },
                bytes_max: self.stats.bytes_max,
                bytes_sum: self.stats.bytes_sum,
                reconfigure: if target_bps != self.bitrate_bps {
                    Some(target_bps)
                } else {
                    None
                },
            },
        )
    }

    /// A report has been made. `applied` is the bitrate that the encoder was
    /// set to on that occasion, `None` if it was not or could not be set.
    pub fn finish_tick(&mut self, applied: Option<u32>, now: u128)
        ensures
            *final(self) == after_report(*old(self), applied, now),
    {
        match applied {
            Some(bitrate) => {
                self.bitrate_bps = bitrate;
            },
            None => {},
        }
        self.last_log = now;
        self.stats = FrameStats::none();
    }
}

// ---------------------------------------------------------------------
// Laws
// ---------------------------------------------------------------------

/// The first frame of a new encoder is a keyframe, and so is the next frame
/// after an encoded one was dropped; a frame that is sent ends the need.
/// Frames that are skipped before they reach the encoder make none.
pub proof fn law_broken_chain_gets_a_keyframe(
    l: CaptureLoop,
    source: CaptureSource,
    frame: CaptureFrame,
    now: u128,
)
    requires
        l.frame_count < u64::MAX,
    ensures
        keyframe_due(after_build(l, source, now)),
        keyframe_due(after_send(l, SendOutcome::Full)),
        !keyframe_due(after_send(l, SendOutcome::Sent)),
        keyframe_due(after_frame(l, frame, now)) == keyframe_due(l),
{
}

/// The need for a keyframe lasts until a frame is encoded and handed over:
/// nothing else in a round takes it away.
pub proof fn law_need_for_a_keyframe_lasts(
    l: CaptureLoop,
    frame: CaptureFrame,
    now: u128,
    len: usize,
    applied: Option<u32>,
)
    requires
        keyframe_due(l),
    ensures
        keyframe_due(after_frame(l, frame, now)),
        keyframe_due(after_encode(l, len)),
        keyframe_due(after_report(l, applied, now)),
{
}

/// What happens to the loop, round after round.
pub enum LoopEvent {
    /// A new stack was built, for a switch or a fallback.
    Built { source: CaptureSource, now: u128 },
    /// Something came of waiting for a frame, with room for `capacity` more
    /// frames on the send side.
    Waited { frame: CaptureFrame, now: u128, capacity: usize },
    /// A frame was encoded to `len` bytes.
    Encoded { len: usize },
    /// The encoded frame was handed to the send side.
    Handed { outcome: SendOutcome },
    /// A report was made.
    Reported { applied: Option<u32>, now: u128 },
}

/// The loop after an event.
pub open spec fn after_event(l: CaptureLoop, event: LoopEvent) -> CaptureLoop {
    match event {
        LoopEvent::Built { source, now } => after_build(l, source, now),
        LoopEvent::Waited { frame, now, .. } => after_frame(l, frame, now),
        LoopEvent::Encoded { len } => after_encode(l, len),
        LoopEvent::Handed { outcome } => after_send(l, outcome),
        LoopEvent::Reported { applied, now } => after_report(l, applied, now),
    }
}

/// The loop after a run of events.
pub open spec fn after_run(l: CaptureLoop, events: Seq<LoopEvent>) -> CaptureLoop
    decreases events.len(),
{
    if events.len() == 0 {
        l
    } else {
        after_event(after_run(l, events.drop_last()), events.last())
    }
}

/// What came of handing over the picture that was encoded last; `None` if
/// none has been since the current stack was built.
pub open spec fn last_handed(events: Seq<LoopEvent>) -> Option<SendOutcome>
    decreases events.len(),
{
    if events.len() == 0 {
        None
    } else {
        match events.last() {
            LoopEvent::Built { .. } => None,
            LoopEvent::Handed { outcome } => Some(outcome),
            _ => last_handed(events.drop_last()),
        }
    }
}

/// Whether the stream has not ended because nobody receives any more.
pub open spec fn goes_on(events: Seq<LoopEvent>) -> bool {
    forall|i: int|
        0 <= i < events.len() ==> #[trigger] events[i] != (LoopEvent::Handed {
            outcome: SendOutcome::Closed,
        })
}

/// However a stream has gone so far, the next picture is encoded as a
/// keyframe exactly if it is the first one since the stack was built or
/// rebuilt, or the previously encoded picture was dropped because the send
/// side was full, or a viewer asked for one. Frames that are skipped before
/// they reach the encoder never make a difference.
pub proof fn law_keyframes_of_a_stream(
    args: crate::args::ArgsView,
    start: u128,
    events: Seq<LoopEvent>,
    requested: bool,
)
    requires
        goes_on(events),
        events.len() < u64::MAX,
    ensures
        ({
            let l = after_run(loop_start(args, start), events);
            &&& keyframe_due(l) <==> last_handed(events) is None || last_handed(events) == Some(
                SendOutcome::Full,
            )
            &&& forced(l, requested) <==> last_handed(events) is None || last_handed(events)
                == Some(SendOutcome::Full) || requested
        }),
{
    lemma_keyframes(loop_start(args, start), events);
}

proof fn lemma_keyframes(l: CaptureLoop, events: Seq<LoopEvent>)
    requires
        l.frame_count == 0,
        !l.need_idr_after_skip,
        goes_on(events),
        events.len() < u64::MAX,
    ensures
        ({
            let after = after_run(l, events);
            &&& after.frame_count <= events.len()
            &&& after.frame_count == 0 <==> last_handed(events) is None
            &&& after.need_idr_after_skip <==> last_handed(events) == Some(SendOutcome::Full)
        }),
    decreases events.len(),
{
    if events.len() > 0 {
        let before = events.drop_last();
        assert forall|i: int| 0 <= i < before.len() implies #[trigger] before[i] != (
        LoopEvent::Handed { outcome: SendOutcome::Closed }) by {
            assert(before[i] == events[i]);
        }
        lemma_keyframes(l, before);
        assert(events[events.len() - 1] == events.last());
    }
}

/// How many pictures a run of events encodes.
pub open spec fn pictures_encoded(l: CaptureLoop, events: Seq<LoopEvent>) -> nat
    decreases events.len(),
{
    if events.len() == 0 {
        0
    } else {
        let before = events.drop_last();
        pictures_encoded(l, before) + match events.last() {
            LoopEvent::Waited { frame, now, capacity } => if frame_step(
                after_run(l, before),
                frame,
                now,
                capacity,
            ) == FrameStep::Encode {
                1
            } else {
                0nat
            },
            _ => 0,
        }
    }
}

/// Whether nothing in a run of events comes later than `until`, as far as
/// waiting for frames goes.
pub open spec fn within(events: Seq<LoopEvent>, until: u128) -> bool {
    forall|i: int|
        0 <= i < events.len() ==> (#[trigger] events[i] matches LoopEvent::Waited { now, .. } ==> now
            <= until)
}

/// Whether no stack is built in a run of events.
pub open spec fn keeps_its_stack(events: Seq<LoopEvent>) -> bool {
    forall|i: int| 0 <= i < events.len() ==> !(#[trigger] events[i] is Built)
}

/// However fast frames are captured and however late the loop has fallen, a
/// stream never encodes more pictures than its rate allows: from the start
/// to any later time, one for each frame duration that has passed, and one
/// more.
pub proof fn law_rate_of_a_stream(
    args: crate::args::ArgsView,
    start: u128,
    events: Seq<LoopEvent>,
    until: u128,
)
    requires
        keeps_its_stack(events),
        within(events, until),
        start <= until,
        until + loop_start(args, start).frame_duration <= u128::MAX,
    ensures
        ({
            let l = loop_start(args, start);
            let encoded = pictures_encoded(l, events);
            &&& encoded * l.frame_duration <= until - start + l.frame_duration
            &&& l.frame_duration > 0 ==> encoded <= (until - start) / (l.frame_duration as int) + 1
        }),
{
    law_rate_since_a_build(loop_start(args, start), events, until);
}

/// The same holds from any time at which a schedule starts, such as when a
/// stack is built.
pub proof fn law_rate_since_a_build(l: CaptureLoop, events: Seq<LoopEvent>, until: u128)
    requires
        keeps_its_stack(events),
        within(events, until),
        l.next_due <= until,
        until + l.frame_duration <= u128::MAX,
    ensures
        pictures_encoded(l, events) * l.frame_duration <= until - l.next_due + l.frame_duration,
        l.frame_duration > 0 ==> pictures_encoded(l, events) <= (until - l.next_due) / (
        l.frame_duration as int) + 1,
{
    lemma_rate(l, events, until);
    let encoded = pictures_encoded(l, events) as int;
    let d = l.frame_duration as int;
    let span = until - l.next_due;
    if d > 0 {
        assert(encoded <= span / d + 1) by (nonlinear_arith)
            requires
                encoded * d <= span + d,
                d > 0,
                span >= 0,
        ;
    }
}

proof fn lemma_rate(l: CaptureLoop, events: Seq<LoopEvent>, until: u128)
    requires
        keeps_its_stack(events),
        within(events, until),
        l.next_due <= until,
        until + l.frame_duration <= u128::MAX,
    ensures
        after_run(l, events).frame_duration == l.frame_duration,
        after_run(l, events).next_due >= l.next_due + pictures_encoded(l, events)
            * l.frame_duration,
        pictures_encoded(l, events) * l.frame_duration <= until - l.next_due + l.frame_duration,
    decreases events.len(),
{
    let none: nat = 0;
    assert(none * l.frame_duration == 0) by (nonlinear_arith)
        requires
            none == 0,
    ;
    if events.len() > 0 {
        let before = events.drop_last();
        assert forall|i: int| 0 <= i < before.len() implies !(#[trigger] before[i] is Built) && (
        before[i] matches LoopEvent::Waited { now, .. } ==> now <= until) by {
            assert(before[i] == events[i]);
        }
        lemma_rate(l, before, until);
        let so_far = pictures_encoded(l, before);
        assert((so_far + 1) * l.frame_duration == so_far * l.frame_duration + l.frame_duration)
            by (nonlinear_arith);
        assert(events[events.len() - 1] == events.last());
    }
}

/// A frame is taken only when it is due, and the next one is then due a full
/// frame duration later at least.
pub proof fn law_frames_keep_their_distance(l: CaptureLoop, now: u128, capacity: usize)
    requires
        now + l.frame_duration <= u128::MAX,
        frame_step(l, CaptureFrame::Frame, now, capacity) == FrameStep::Encode,
    ensures
        now >= l.next_due,
        capacity > 0,
        after_frame(l, CaptureFrame::Frame, now).next_due >= l.next_due + l.frame_duration,
        after_frame(l, CaptureFrame::Frame, now).next_due >= now,
{
}

/// Switching and falling back keep the bitrate that adaptation has come to,
/// and the requested rate. Falling back keeps the source and uses WGC.
pub proof fn law_rebuilding_keeps_the_settings(
    l: CaptureLoop,
    source: CaptureSource,
    now: u128,
    capacity: usize,
)
    ensures
        stack_for(l, source, l.backend).bitrate_bps == l.bitrate_bps,
        stack_for(l, source, l.backend).fps == l.fps,
        frame_step(l, CaptureFrame::GiveUp, now, capacity) == FrameStep::Rebuild(
            StackRequest {
                source: l.source,
                backend: Backend::ForceWgc,
                fps: l.fps,
                bitrate_bps: l.bitrate_bps,
            },
        ),
        after_build(l, source, now).bitrate_bps == l.bitrate_bps,
        after_build(l, source, now).source == source,
{
}

/// Reports come at least a second apart. The encoder's bitrate changes with
/// a report only, and once it is what the viewers want it is left alone.
pub proof fn law_reports_are_a_second_apart(
    l: CaptureLoop,
    at: u128,
    now: u128,
    target_bps: u32,
)
    requires
        report_due(after_report(l, Some(target_bps), at), now),
    ensures
        now >= at + NANOS_PER_SEC,
        report_of(after_report(l, Some(target_bps), at), now, target_bps).reconfigure is None,
        report_of(after_report(l, Some(target_bps), at), now, target_bps).rate.nanos
            >= NANOS_PER_SEC,
{
}

/// What becomes of a frame. It is dropped as too early exactly if it comes
/// before it is due. One that is due moves the schedule on by exactly one
/// frame duration if it comes within one, however late it is in that; only
/// one that comes later than that starts the schedule afresh, a frame
/// duration from now. Room on the send side decides whether it is encoded,
/// but not when the next one is due. Nothing else is changed.
pub proof fn law_frame_is_taken_when_it_is_due(
    l: &mut CaptureLoop,
    frame: CaptureFrame,
    now: u128,
    capacity: usize,
    step: FrameStep,
)
    requires
        call_ensures(CaptureLoop::on_frame, (l, frame, now, capacity), step),
        now + old(l).frame_duration <= u128::MAX,
    ensures
        ({
            let due = old(l).next_due;
            let duration = old(l).frame_duration;
            let next = final(l).next_due;
            &&& step is TooEarly <==> frame is Frame && now < due
            &&& step is BackedUp <==> frame is Frame && now >= due && capacity == 0
            &&& step is Encode <==> frame is Frame && now >= due && capacity > 0
            &&& step is Idle <==> frame is Timeout || frame is Recovered
            &&& step is Rebuild <==> frame is GiveUp
            &&& step matches FrameStep::Rebuild(request) ==> request.source == old(l).source
                && request.backend is ForceWgc && request.fps == old(l).fps && request.bitrate_bps
                == old(l).bitrate_bps
            &&& frame is Frame && due <= now <= due + duration ==> next == due + duration
            &&& frame is Frame && now > due + duration ==> next == now + duration
            &&& !(frame is Frame) || now < due ==> next == due
            &&& *final(l) == (CaptureLoop { next_due: next, ..*old(l) })
        }),
{
}

/// How many frames of a run of events were due: encoded, or dropped for want
/// of room on the send side.
pub open spec fn frames_due(l: CaptureLoop, events: Seq<LoopEvent>) -> nat
    decreases events.len(),
{
    if events.len() == 0 {
        0
    } else {
        let before = events.drop_last();
        frames_due(l, before) + match events.last() {
            LoopEvent::Waited { frame, now, capacity } => match frame_step(
                after_run(l, before),
                frame,
                now,
                capacity,
            ) {
                FrameStep::Encode => 1nat,
                FrameStep::BackedUp => 1,
                _ => 0,
            },
            _ => 0,
        }
    }
}

/// When the latest frame of a run of events came; `start` if there was none.
pub open spec fn latest_frame(start: u128, events: Seq<LoopEvent>) -> u128
    decreases events.len(),
{
    if events.len() == 0 {
        start
    } else {
        match events.last() {
            LoopEvent::Waited { frame: CaptureFrame::Frame, now, .. } => now,
            _ => latest_frame(start, events.drop_last()),
        }
    }
}

/// Whether frames came in order and never further apart than `gap`.
pub open spec fn steady(start: u128, gap: u64, events: Seq<LoopEvent>) -> bool
    decreases events.len(),
{
    events.len() > 0 ==> {
        let latest = latest_frame(start, events.drop_last());
        &&& steady(start, gap, events.drop_last())
        &&& events.last() matches LoopEvent::Waited { frame: CaptureFrame::Frame, now, .. }
            ==> latest <= now <= latest + gap
    }
}

/// Whether there was always room on the send side.
pub open spec fn always_room(events: Seq<LoopEvent>) -> bool {
    forall|i: int|
        0 <= i < events.len() ==> (#[trigger] events[i] matches LoopEvent::Waited { capacity, .. }
            ==> capacity > 0)
}

/// The schedule of a stream does not drift. As long as frames are captured no
/// further apart than one frame duration, the next frame is due at exactly
/// the start of the schedule and one frame duration for each frame that was
/// due so far; so as many were due as frame durations have passed. If there
/// is room on the send side they are all encoded, and the requested rate is
/// reached.
pub proof fn law_stream_reaches_its_rate(l: CaptureLoop, events: Seq<LoopEvent>, until: u128)
    requires
        keeps_its_stack(events),
        within(events, until),
        steady(l.next_due, l.frame_duration, events),
        l.next_due <= until,
        until + l.frame_duration <= u128::MAX,
    ensures
        ({
            let latest = latest_frame(l.next_due, events);
            let count = frames_due(l, events);
            &&& after_run(l, events).next_due == l.next_due + count * l.frame_duration
            &&& after_run(l, events).next_due >= latest
            &&& count * l.frame_duration >= latest - l.next_due
            &&& l.frame_duration > 0 ==> count >= (latest - l.next_due) / (l.frame_duration as int)
            &&& always_room(events) ==> pictures_encoded(l, events) == count
        }),
{
    lemma_beat(l, events, until);
    let d = l.frame_duration as int;
    let count = frames_due(l, events) as int;
    let span = latest_frame(l.next_due, events) - l.next_due;
    if d > 0 {
        assert(count >= span / d) by (nonlinear_arith)
            requires
                count * d >= span,
                d > 0,
        ;
    }
}

proof fn lemma_beat(l: CaptureLoop, events: Seq<LoopEvent>, until: u128)
    requires
        keeps_its_stack(events),
        within(events, until),
        steady(l.next_due, l.frame_duration, events),
        l.next_due <= until,
        until + l.frame_duration <= u128::MAX,
    ensures
        ({
            let after = after_run(l, events);
            &&& after.frame_duration == l.frame_duration
            &&& after.next_due == l.next_due + frames_due(l, events) * l.frame_duration
            &&& after.next_due >= latest_frame(l.next_due, events)
            &&& latest_frame(l.next_due, events) <= until
            &&& always_room(events) ==> pictures_encoded(l, events) == frames_due(l, events)
        }),
    decreases events.len(),
{
    let none: nat = 0;
    assert(none * l.frame_duration == 0) by (nonlinear_arith)
        requires
            none == 0,
    ;
    if events.len() > 0 {
        let before = events.drop_last();
        assert forall|i: int| 0 <= i < before.len() implies !(#[trigger] before[i] is Built) && (
        before[i] matches LoopEvent::Waited { now, .. } ==> now <= until) by {
            assert(before[i] == events[i]);
        }
        assert(always_room(events) ==> always_room(before)) by {
            assert(forall|i: int| 0 <= i < before.len() ==> before[i] == events[i]);
        }
        lemma_beat(l, before, until);
        let so_far = frames_due(l, before);
        assert((so_far + 1) * l.frame_duration == so_far * l.frame_duration + l.frame_duration)
            by (nonlinear_arith);
        assert(events[events.len() - 1] == events.last());
    }
}

/// A report is made as soon as a second has passed since the last one, and no
/// sooner. It asks for a bitrate exactly if the encoder is at another one
/// than the viewers want, higher or lower, and then for the one they want.
pub proof fn law_report_asks_for_the_target(
    l: CaptureLoop,
    now: u128,
    target_bps: u32,
    report: Option<Report>,
)
    requires
        call_ensures(CaptureLoop::tick, (&l, now, target_bps), report),
    ensures
        report is Some <==> now >= l.last_log + 1_000_000_000,
        report matches Some(made) ==> {
            &&& made.rate.frames == l.stats.frames
            &&& made.rate.nanos == now - l.last_log
            &&& target_bps > l.bitrate_bps ==> made.reconfigure == Some(target_bps)
            &&& target_bps < l.bitrate_bps ==> made.reconfigure == Some(target_bps)
            &&& target_bps == l.bitrate_bps ==> made.reconfigure is None
        },
{
}

/// After a report whose request was applied, the encoder is at the bitrate
/// that the viewers want, whichever way it had to go. After one whose request
/// could not be applied it is where it was, and the next report asks again.
/// Either way the counting starts afresh.
pub proof fn law_encoder_follows_the_viewers(
    l: CaptureLoop,
    now: u128,
    target_bps: u32,
    report: Report,
    applied: &mut CaptureLoop,
    refused: &mut CaptureLoop,
    later: u128,
    next: Option<Report>,
)
    requires
        call_ensures(CaptureLoop::tick, (&l, now, target_bps), Some(report)),
        *old(applied) == l,
        call_ensures(CaptureLoop::finish_tick, (applied, report.reconfigure, now), ()),
        *old(refused) == l,
        call_ensures(CaptureLoop::finish_tick, (refused, None, now), ()),
        call_ensures(CaptureLoop::tick, (final(refused), later, target_bps), next),
    ensures
        final(applied).bitrate_bps == target_bps,
        final(refused).bitrate_bps == l.bitrate_bps,
        next matches Some(again) ==> again.reconfigure == report.reconfigure,
        final(applied).last_log == now,
        final(applied).stats.frames == 0,
        final(applied).stats.bytes_sum == 0,
        final(applied).stats.bytes_max == 0,
        final(applied).next_due == l.next_due,
        final(applied).frame_count == l.frame_count,
        final(applied).source == l.source,
        final(applied).fps == l.fps && final(applied).frame_duration == l.frame_duration,
        final(applied).need_idr_after_skip == l.need_idr_after_skip,
        final(applied).backend == l.backend,
{
}

/// The sizes of the frames that were encoded since the last report.
pub open spec fn sizes(events: Seq<LoopEvent>) -> Seq<usize>
    decreases events.len(),
{
    if events.len() == 0 {
        Seq::empty()
    } else {
        match events.last() {
            LoopEvent::Encoded { len } => sizes(events.drop_last()).push(len),
            LoopEvent::Reported { .. } => Seq::empty(),
            _ => sizes(events.drop_last()),
        }
    }
}

/// How many frames were handed over since the last report.
pub open spec fn handed_over(events: Seq<LoopEvent>) -> nat
    decreases events.len(),
{
    if events.len() == 0 {
        0
    } else {
        match events.last() {
            LoopEvent::Handed { .. } => handed_over(events.drop_last()) + 1,
            LoopEvent::Reported { .. } => 0,
            _ => handed_over(events.drop_last()),
        }
    }
}

/// The sum of some sizes.
pub open spec fn total(sizes: Seq<usize>) -> nat
    decreases sizes.len(),
{
    if sizes.len() == 0 {
        0
    } else {
        total(sizes.drop_last()) + sizes.last() as nat
    }
}

/// A report sums up what happened since the one before: how many frames were
/// handed over, how many bytes they had together, and how many the smallest
/// and the largest of them had.
pub proof fn law_report_sums_up(
    args: crate::args::ArgsView,
    start: u128,
    events: Seq<LoopEvent>,
    now: u128,
    target_bps: u32,
    report: Report,
)
    requires
        call_ensures(
            CaptureLoop::tick,
            (&after_run(loop_start(args, start), events), now, target_bps),
            Some(report),
        ),
        goes_on(events),
        events.len() <= u32::MAX,
        forall|i: int| 0 <= i <= events.len() ==> total(sizes(#[trigger] events.take(i))) <= u64::MAX,
    ensures
        report.rate.frames == handed_over(events),
        report.bytes_sum == total(sizes(events)),
        forall|i: int|
            0 <= i < sizes(events).len() ==> #[trigger] sizes(events)[i] <= report.bytes_max,
        sizes(events).len() == 0 ==> report.bytes_max == 0 && report.bytes_min == 0,
        sizes(events).len() > 0 ==> sizes(events).contains(report.bytes_max),
        (exists|i: int| 0 <= i < sizes(events).len() && #[trigger] sizes(events)[i] < usize::MAX)
            ==> sizes(events).contains(report.bytes_min),
        forall|i: int|
            0 <= i < sizes(events).len() ==> report.bytes_min <= #[trigger] sizes(events)[i],
{
    lemma_stats(loop_start(args, start), events);
}

proof fn lemma_stats(l: CaptureLoop, events: Seq<LoopEvent>)
    requires
        l.stats == no_frames(),
        goes_on(events),
        events.len() <= u32::MAX,
        forall|i: int| 0 <= i <= events.len() ==> total(sizes(#[trigger] events.take(i))) <= u64::MAX,
    ensures
        ({
            let stats = after_run(l, events).stats;
            let s = sizes(events);
            &&& stats.frames == handed_over(events)
            &&& handed_over(events) <= events.len()
            &&& stats.bytes_sum == total(s)
            &&& forall|i: int|
                0 <= i < s.len() ==> stats.bytes_min <= #[trigger] s[i] <= stats.bytes_max
            &&& s.len() == 0 ==> stats.bytes_min == usize::MAX && stats.bytes_max == 0
            &&& s.len() > 0 ==> s.contains(stats.bytes_max) && s.contains(stats.bytes_min)
        }),
    decreases events.len(),
{
    if events.len() > 0 {
        let before = events.drop_last();
        assert forall|i: int| 0 <= i < before.len() implies #[trigger] before[i] != (
        LoopEvent::Handed { outcome: SendOutcome::Closed }) by {
            assert(before[i] == events[i]);
        }
        assert forall|i: int| 0 <= i <= before.len() implies total(
            sizes(#[trigger] before.take(i)),
        ) <= u64::MAX by {
            assert(before.take(i) =~= events.take(i));
        }
        assert(events.take(events.len() as int) =~= events);
        lemma_stats(l, before);
        assert(events[events.len() - 1] == events.last());
        let s = sizes(before);
        let stats = after_run(l, before).stats;
        if let LoopEvent::Encoded { len } = events.last() {
            let longer = s.push(len);
            assert(longer.drop_last() =~= s);
            assert(longer[s.len() as int] == len);
            if s.len() > 0 {
                let i = choose|i: int| 0 <= i < s.len() && s[i] == stats.bytes_max;
                let j = choose|j: int| 0 <= j < s.len() && s[j] == stats.bytes_min;
                assert(longer[i] == s[i] && longer[j] == s[j]);
            }
        }
    }
}

/// A frame is encoded as a keyframe exactly if it is the encoder's first, or
/// follows one that was dropped after it was encoded, or a viewer asked for
/// it. A viewer's request is not lost: it is taken up by a keyframe, or still
/// pending after one that came for another reason.
pub proof fn law_keyframe_for_whoever_asks<T>(
    l: CaptureLoop,
    sender: &mut FrameSender<T>,
    force: bool,
)
    requires
        call_ensures(CaptureLoop::force_idr::<T>, (&l, sender), force),
    ensures
        force <==> l.frame_count == 0 || l.need_idr_after_skip || old(sender)@.force_idr,
        !force ==> !final(sender)@.force_idr,
        l.frame_count == 0 || l.need_idr_after_skip ==> final(sender)@.force_idr == old(sender)@.force_idr,
        l.frame_count > 0 && !l.need_idr_after_skip ==> !final(sender)@.force_idr,
        final(sender)@.viewers == old(sender)@.viewers,
        final(sender)@.desired == old(sender)@.desired,
        final(sender)@.target == old(sender)@.target,
{
}

/// A frame that was sent ends the need for a keyframe, and one that was
/// dropped makes it; both count. Only when nobody receives any more does the
/// stream end.
pub proof fn law_handing_over(l: &mut CaptureLoop, outcome: SendOutcome, what: AfterSend)
    requires
        call_ensures(CaptureLoop::on_sent, (l, outcome), what),
        old(l).frame_count < u64::MAX,
        old(l).stats.frames < u32::MAX,
    ensures
        what is Tick <==> outcome is Sent,
        what is NextRound <==> outcome is Full,
        what is Stop <==> outcome is Closed,
        final(l).need_idr_after_skip <==> outcome is Full,
        !(outcome is Closed) ==> final(l).frame_count == old(l).frame_count + 1
            && final(l).stats.frames == old(l).stats.frames + 1,
        final(l).stats.bytes_sum == old(l).stats.bytes_sum,
        final(l).next_due == old(l).next_due,
        final(l).bitrate_bps == old(l).bitrate_bps,
        final(l).last_log == old(l).last_log,
        final(l).source == old(l).source,
        final(l).fps == old(l).fps && final(l).frame_duration == old(l).frame_duration,
        final(l).backend == old(l).backend,
{
}

/// The first three frames of an encoder, and every keyframe, are worth a line
/// in the log. A frame's size is within the smallest and the largest, and
/// adds to the sum.
pub proof fn law_encoding_a_frame(
    l: &mut CaptureLoop,
    len: usize,
    force_idr: bool,
    noteworthy: bool,
)
    requires
        call_ensures(CaptureLoop::on_encoded, (l, len, force_idr), noteworthy),
        old(l).stats.bytes_sum + len <= u64::MAX,
    ensures
        noteworthy <==> force_idr || old(l).frame_count == 0 || old(l).frame_count == 1 || old(l).frame_count == 2,
        final(l).stats.bytes_sum == old(l).stats.bytes_sum + len,
        final(l).stats.bytes_min <= len <= final(l).stats.bytes_max,
        final(l).stats.bytes_min <= old(l).stats.bytes_min,
        final(l).stats.bytes_max >= old(l).stats.bytes_max,
        final(l).stats.bytes_min == len || final(l).stats.bytes_min == old(l).stats.bytes_min,
        final(l).stats.bytes_max == len || final(l).stats.bytes_max == old(l).stats.bytes_max,
        *final(l) == (CaptureLoop { stats: final(l).stats, ..*old(l) }),
        final(l).stats.frames == old(l).stats.frames,
{
}

/// A new loop starts with what the settings ask for: the first frame is due
/// at once and is a keyframe, and the first report comes a second later. The
/// stack that is built first is the one that a switch to the same source
/// would build.
pub proof fn law_loop_starts_as_the_settings_ask(
    args: Args,
    now: u128,
    l: CaptureLoop,
    first: StackRequest,
    switch: Begin,
)
    requires
        args.fps > 0,
        call_ensures(CaptureLoop::new, (&args, now), l),
        call_ensures(first_stack, (&args,), first),
        call_ensures(CaptureLoop::begin, (&l, false, Some(l.source)), switch),
    ensures
        switch == Begin::Switch(first),
        first.fps == args.fps && first.bitrate_bps == args.bitrate_bps,
        first.backend == args.capture_backend,
        first.source == l.source,
        l.fps == args.fps && l.bitrate_bps == args.bitrate_bps,
        l.backend == args.capture_backend,
        l.next_due == now && l.last_log == now,
        l.frame_count == 0 && !l.need_idr_after_skip,
        2_000_000_000 - args.fps <= 2 * (l.frame_duration * args.fps) <= 2_000_000_000 + args.fps,
        l.stats.frames == 0 && l.stats.bytes_sum == 0,
        l.source matches CaptureSource::Monitor { adapter_index, output_index } ==> args.window_hwnd
            is None && adapter_index == args.adapter_index && output_index == args.output_index,
        l.source matches CaptureSource::Window { hwnd } ==> args.window_hwnd == Some(hwnd),
{
    lemma_frame_duration(args.fps);
}

/// The user's wish to stop comes before the wish to switch. A switch is to
/// the source that the user asked for, with the API from the settings, at
/// the rate and bitrate of the stream.
pub proof fn law_round_begins_with_the_users_wishes(
    l: CaptureLoop,
    stop: bool,
    switch_target: Option<CaptureSource>,
    what: Begin,
)
    requires
        call_ensures(CaptureLoop::begin, (&l, stop, switch_target), what),
    ensures
        what is Stop <==> stop,
        what is Capture <==> !stop && switch_target is None,
        what matches Begin::Switch(request) ==> switch_target == Some(request.source)
            && request.backend == l.backend && request.fps == l.fps && request.bitrate_bps
            == l.bitrate_bps,
{
}

/// A stack that was built captures the new source from now on, starting with
/// a keyframe, at the rate and bitrate of the stream. One that could not be
/// built for a switch changes nothing; one that could not be built after the
/// session was lost ends the stream.
pub proof fn law_building_a_stack(
    l: &mut CaptureLoop,
    source: CaptureSource,
    now: u128,
    kept: AfterFailure,
    lost: AfterFailure,
)
    requires
        call_ensures(CaptureLoop::built, (l, source, now), ()),
        call_ensures(CaptureLoop::build_failed, (old(l), Attempted::Switch), kept),
        call_ensures(CaptureLoop::build_failed, (old(l), Attempted::Fallback), lost),
    ensures
        final(l).source == source,
        final(l).next_due == now,
        final(l).frame_count == 0 && !final(l).need_idr_after_skip,
        final(l).fps == old(l).fps && final(l).frame_duration == old(l).frame_duration,
        final(l).bitrate_bps == old(l).bitrate_bps,
        final(l).backend == old(l).backend,
        final(l).last_log == old(l).last_log && final(l).stats == old(l).stats,
        kept == (AfterFailure::Keep { source: old(l).source }),
        lost is End,
{
}

} // verus!
