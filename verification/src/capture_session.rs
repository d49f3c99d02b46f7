//! Capture sessions: which API to open for a source, and what to do with the
//! outcome of each attempt to get a frame.
use vstd::prelude::*;

use crate::capture::{Backend, CaptureSource};
use crate::decimal::{decimal, decimal_string, signed_decimal, signed_decimal_string};

verus! {

// ---------------------------------------------------------------------
// Opening a session
// ---------------------------------------------------------------------

/// The next thing to try in order to start capturing.
#[derive(Debug, Clone, Copy, PartialEq, Eq, Structural)]
pub enum CaptureStep {
    /// DXGI Desktop Duplication can't target a single window.
    RefuseWindowOverDxgi,
    /// Open the window through WGC.
    OpenWindow { hwnd: isize },
    /// Open the monitor through DXGI Desktop Duplication.
    OpenMonitorDxgi { adapter_index: u32, output_index: u32 },
    /// Open the monitor through WGC.
    OpenMonitorWgc { adapter_index: u32, output_index: u32 },
}

/// The first thing to try for `source`.
pub open spec fn first_step(source: CaptureSource, backend: Backend) -> CaptureStep {
    match source {
        CaptureSource::Window { hwnd } => if backend is ForceDxgi {
            CaptureStep::RefuseWindowOverDxgi
        } else {
            CaptureStep::OpenWindow { hwnd }
        },
        CaptureSource::Monitor { adapter_index, output_index } => if backend is ForceWgc {
            CaptureStep::OpenMonitorWgc { adapter_index, output_index }
        } else {
            CaptureStep::OpenMonitorDxgi { adapter_index, output_index }
        },
    }
}

/// What to try once `step` has failed; `None` if the failure stands.
pub open spec fn fallback_step(step: CaptureStep, backend: Backend) -> Option<CaptureStep> {
    match step {
        CaptureStep::OpenMonitorDxgi { adapter_index, output_index } => if backend is Auto {
            Some(CaptureStep::OpenMonitorWgc { adapter_index, output_index })
        } else {
            None
        },
        _ => None,
    }
}

/// Starts a capture session for the given source: the first API to open.
pub fn start_capture(source: CaptureSource, backend: Backend) -> (step: CaptureStep)
    ensures
        step == first_step(source, backend),
{
    match source {
        CaptureSource::Window { hwnd } => {
            if backend == Backend::ForceDxgi {
                CaptureStep::RefuseWindowOverDxgi
            } else {
                CaptureStep::OpenWindow { hwnd }
            }
        },
        CaptureSource::Monitor { adapter_index, output_index } => {
            start_monitor_capture(adapter_index, output_index, backend)
        },
    }
}

fn start_monitor_capture(adapter_index: u32, output_index: u32, backend: Backend) -> (step:
    CaptureStep)
    ensures
        step == first_step(CaptureSource::Monitor { adapter_index, output_index }, backend),
{
    match backend {
        Backend::ForceWgc => CaptureStep::OpenMonitorWgc { adapter_index, output_index },
        Backend::ForceDxgi => CaptureStep::OpenMonitorDxgi { adapter_index, output_index },
        Backend::Auto => CaptureStep::OpenMonitorDxgi { adapter_index, output_index },
    }
}

/// What to open instead after `step` failed.
pub fn after_open_failed(step: CaptureStep, backend: Backend) -> (next: Option<CaptureStep>)
    ensures
        next == fallback_step(step, backend),
{
    match step {
        CaptureStep::OpenMonitorDxgi { adapter_index, output_index } => {
            match backend {
                Backend::Auto => Some(CaptureStep::OpenMonitorWgc { adapter_index, output_index }),
                _ => None,
            }
        },
        _ => None,
    }
}

/// Whether a step uses DXGI Desktop Duplication.
pub open spec fn uses_dxgi(step: CaptureStep) -> bool {
    step is OpenMonitorDxgi
}

/// A window is only ever opened through WGC; a forced API is the only one
/// ever opened; and opening ends after at most one fallback, which stays
/// with the same monitor.
pub proof fn law_capture_api(source: CaptureSource, backend: Backend)
    ensures
        source is Window ==> !uses_dxgi(first_step(source, backend)) && fallback_step(
            first_step(source, backend),
            backend,
        ) is None,
        backend is ForceWgc ==> !uses_dxgi(first_step(source, backend)) && fallback_step(
            first_step(source, backend),
            backend,
        ) is None,
        backend is ForceDxgi ==> (uses_dxgi(first_step(source, backend)) || first_step(
            source,
            backend,
        ) is RefuseWindowOverDxgi) && fallback_step(first_step(source, backend), backend) is None,
        fallback_step(first_step(source, backend), backend) matches Some(next) ==> {
            &&& fallback_step(next, backend) is None
            &&& source matches CaptureSource::Monitor { adapter_index, output_index } && next
                == CaptureStep::OpenMonitorWgc { adapter_index, output_index }
        },
{
}

// ---------------------------------------------------------------------
// Sizes
// ---------------------------------------------------------------------

/// The extent of a desktop rectangle. A rectangle that runs backwards comes
/// out as the difference modulo 2^32.
pub open spec fn extent(from: i32, to: i32) -> u32 {
    if to >= from {
        (to - from) as u32
    } else {
        (to - from + 0x1_0000_0000) as u32
    }
}

/// The width and height of a monitor with the given desktop coordinates.
pub fn monitor_size(left: i32, top: i32, right: i32, bottom: i32) -> (size: (u32, u32))
    requires
        i32::MIN <= right - left <= i32::MAX,
        i32::MIN <= bottom - top <= i32::MAX,
    ensures
        size == (extent(left, right), extent(top, bottom)),
{
    (difference(left, right), difference(top, bottom))
}

fn difference(from: i32, to: i32) -> (d: u32)
    requires
        i32::MIN <= to - from <= i32::MAX,
    ensures
        d == extent(from, to),
{
    let d: i64 = to as i64 - from as i64;
    if d >= 0 {
        d as u32
    } else {
        (d + 0x1_0000_0000) as u32
    }
}

/// The size of a window to capture; `None` if it is not a usable one (a
/// minimized window may have none).
pub fn window_size(width: i32, height: i32) -> (size: Option<(u32, u32)>)
    ensures
        size == if width <= 0 || height <= 0 {
            None
        } else {
            Some((width as u32, height as u32))
        },
{
    if width <= 0 || height <= 0 {
        None
    } else {
        Some((width as u32, height as u32))
    }
}

// ---------------------------------------------------------------------
// DXGI Desktop Duplication
// ---------------------------------------------------------------------

/// How many times in a row access may be lost before DXGI is given up.
pub const MAX_ACCESS_LOST: u32 = 200;

/// How many times in a row access may be lost before recreating pauses.
pub const EAGER_ACCESS_LOST: u32 = 5;

/// The pause before recreating, once access has been lost repeatedly.
pub const ACCESS_LOST_PAUSE_MS: u64 = 50;

/// The pause between attempts to recreate the duplication.
pub const RECREATE_PAUSE_MS: u64 = 100;

/// How `AcquireNextFrame` ended.
#[derive(Debug, Clone, Copy, PartialEq, Eq, Structural)]
pub enum Acquired {
    /// It returned: whether the desktop image was updated, and whether a
    /// resource came with it.
    Frame { presented: bool, resource: bool },
    WaitTimeout,
    AccessLost,
    Failed,
}

/// What to do after `AcquireNextFrame`.
#[derive(Debug, Clone, Copy, PartialEq, Eq, Structural)]
pub enum DxgiStep {
    /// Copy the texture out, release DXGI's buffer right away, and return
    /// the copy. `log_format`: report the texture's pixel format first.
    CopyFrame { log_format: bool },
    /// Release DXGI's buffer; there was no new image.
    ReleaseOnly,
    /// No frame arrived in time; there is nothing to release.
    NoFrame,
    /// Wait `pause_ms`, then recreate the duplication.
    Recreate { pause_ms: u64 },
    /// DXGI can't recover; fall back to WGC.
    GiveUp,
    /// Report the error.
    Fail,
}

/// What a DXGI session remembers from frame to frame.
#[derive(Debug, Clone, Copy)]
pub struct DxgiState {
    pub consecutive_access_lost: u32,
    pub format_logged: bool,
}

impl DxgiState {
    pub fn new() -> (state: Self)
        ensures
            state.consecutive_access_lost == 0,
            !state.format_logged,
    {
        DxgiState { consecutive_access_lost: 0, format_logged: false }
    }

    /// What to do after one attempt to acquire a frame.
    pub open spec fn step(self, outcome: Acquired) -> DxgiStep {
        match outcome {
            Acquired::Frame { presented, resource } => if presented && resource {
                DxgiStep::CopyFrame { log_format: !self.format_logged }
            } else {
                DxgiStep::ReleaseOnly
            },
            Acquired::WaitTimeout => DxgiStep::NoFrame,
            Acquired::AccessLost => if self.consecutive_access_lost >= MAX_ACCESS_LOST {
                DxgiStep::GiveUp
            } else if self.consecutive_access_lost >= EAGER_ACCESS_LOST {
                DxgiStep::Recreate { pause_ms: ACCESS_LOST_PAUSE_MS }
            } else {
                DxgiStep::Recreate { pause_ms: 0 }
            },
            Acquired::Failed => DxgiStep::Fail,
        }
    }

    /// What the session remembers after one attempt to acquire a frame.
    pub open spec fn after(self, outcome: Acquired) -> DxgiState {
        match outcome {
            Acquired::Frame { presented, resource } => DxgiState {
                consecutive_access_lost: 0,
                format_logged: self.format_logged || (presented && resource),
            },
            Acquired::AccessLost => DxgiState {
                consecutive_access_lost: (self.consecutive_access_lost + 1) as u32,
                ..self
            },
            _ => self,
        }
    }

    /// Takes note of one attempt to acquire a frame.
    ///
    /// Some exclusive-fullscreen games keep re-triggering access loss
    /// immediately after the duplication is recreated. Repeated losses are
    /// met with a pause, and past a threshold with giving up, rather than
    /// spinning forever.
    pub fn next_frame(&mut self, outcome: Acquired) -> (step: DxgiStep)
        requires
            outcome is AccessLost ==> old(self).consecutive_access_lost < u32::MAX,
        ensures
            step == old(self).step(outcome),
            *final(self) == old(self).after(outcome),
    {
        match outcome {
            Acquired::Frame { presented, resource } => {
                self.consecutive_access_lost = 0;
                if presented && resource {
                    let log_format = !self.format_logged;
                    self.format_logged = true;
                    DxgiStep::CopyFrame { log_format }
                } else {
                    DxgiStep::ReleaseOnly
                }
            },
            Acquired::WaitTimeout => DxgiStep::NoFrame,
            Acquired::AccessLost => {
                self.consecutive_access_lost = self.consecutive_access_lost + 1;
                if self.consecutive_access_lost > MAX_ACCESS_LOST {
                    return DxgiStep::GiveUp;
                }
                if self.consecutive_access_lost > EAGER_ACCESS_LOST {
                    DxgiStep::Recreate { pause_ms: ACCESS_LOST_PAUSE_MS }
                } else {
                    DxgiStep::Recreate { pause_ms: 0 }
                }
            },
            Acquired::Failed => DxgiStep::Fail,
        }
    }
}

/// The state after a run of outcomes.
pub open spec fn after_all(state: DxgiState, outcomes: Seq<Acquired>) -> DxgiState
    decreases outcomes.len(),
{
    if outcomes.len() == 0 {
        state
    } else {
        after_all(state, outcomes.drop_last()).after(outcomes.last())
    }
}

/// How many losses there were since a frame was last acquired.
pub open spec fn losses(outcomes: Seq<Acquired>) -> nat
    decreases outcomes.len(),
{
    if outcomes.len() == 0 {
        0
    } else {
        match outcomes.last() {
            Acquired::Frame { .. } => 0,
            Acquired::AccessLost => losses(outcomes.drop_last()) + 1,
            _ => losses(outcomes.drop_last()),
        }
    }
}

/// Every loss since a frame was last acquired counts, whatever comes between
/// the losses: a session recreates the duplication on the first 200 of them
/// and gives up on every further one; it does not spin forever. Waiting in
/// vain neither ends it nor resets the count.
pub proof fn law_gives_up_after_repeated_loss(outcomes: Seq<Acquired>, state: DxgiState)
    requires
        outcomes.len() <= u32::MAX,
        state.consecutive_access_lost == 0,
    ensures
        after_all(state, outcomes).consecutive_access_lost == losses(outcomes),
        losses(outcomes) <= outcomes.len(),
        after_all(state, outcomes).step(Acquired::AccessLost) is Recreate <==> losses(outcomes)
            < 200,
        after_all(state, outcomes).step(Acquired::AccessLost) is GiveUp <==> losses(outcomes)
            >= 200,
        after_all(state, outcomes).step(Acquired::WaitTimeout) is NoFrame,
        losses(outcomes.push(Acquired::WaitTimeout)) == losses(outcomes),
    decreases outcomes.len(),
{
    if outcomes.len() > 0 {
        law_gives_up_after_repeated_loss(outcomes.drop_last(), state);
    }
    assert(outcomes.push(Acquired::WaitTimeout).drop_last() =~= outcomes);
}

/// An acquired frame forgives every earlier loss, and the pixel format is
/// reported at most once in a session.
pub proof fn law_frame_resets_loss(state: DxgiState, presented: bool, resource: bool)
    ensures
        state.after(Acquired::Frame { presented, resource }).consecutive_access_lost == 0,
        state.step(Acquired::Frame { presented, resource }) is CopyFrame ==> !(state.after(
            Acquired::Frame { presented, resource },
        ).step(Acquired::Frame { presented, resource })->log_format),
{
}

// ---------------------------------------------------------------------
// Windows.Graphics.Capture
// ---------------------------------------------------------------------

/// The pause between polls for a frame.
pub const POLL_PAUSE_MS: u64 = 1;

/// Whether a frame's content no longer has the size that the session was
/// opened with. A frame whose size can't be read counts as unchanged.
pub open spec fn size_changed(width: u32, height: u32, content: Option<(i32, i32)>) -> bool {
    match content {
        Some((w, h)) => extent(0, w) != width || extent(0, h) != height,
        None => false,
    }
}

/// What to do after one poll for a frame.
#[derive(Debug, Clone, Copy, PartialEq, Eq, Structural)]
pub enum WgcStep {
    /// The content changed its size; the rest of the pipeline is sized once
    /// at startup and can't adapt mid-stream.
    Resized,
    /// Return the copied frame.
    Frame,
    /// No frame arrived in time.
    Timeout,
    /// Wait `POLL_PAUSE_MS` and poll again.
    PollAgain,
}

/// Whether the content of a polled frame still has the session's size.
pub fn check_size(width: u32, height: u32, content: Option<(i32, i32)>) -> (changed: bool)
    ensures
        changed == size_changed(width, height, content),
{
    match content {
        Some((w, h)) => wrapped(w) != width || wrapped(h) != height,
        None => false,
    }
}

fn wrapped(n: i32) -> (w: u32)
    ensures
        w == extent(0, n),
{
    if n >= 0 {
        n as u32
    } else {
        (n as i64 + 0x1_0000_0000) as u32
    }
}

/// What to do after one poll: `frame` is `None` if no frame was ready, and
/// otherwise says its content size and whether its texture could be copied.
/// Times are nanoseconds on a monotonic clock.
pub fn poll_step(
    width: u32,
    height: u32,
    frame: Option<(Option<(i32, i32)>, bool)>,
    now: u128,
    deadline: u128,
) -> (step: WgcStep)
    ensures
        step == match frame {
            Some((content, copied)) => if size_changed(width, height, content) {
                WgcStep::Resized
            } else if copied {
                WgcStep::Frame
            } else if now >= deadline {
                WgcStep::Timeout
            } else {
                WgcStep::PollAgain
            },
            None => if now >= deadline {
                WgcStep::Timeout
            } else {
                WgcStep::PollAgain
            },
        },
{
    if let Some((content, copied)) = frame {
        if check_size(width, height, content) {
            return WgcStep::Resized;
        }
        if copied {
            return WgcStep::Frame;
        }
    }
    if now >= deadline {
        WgcStep::Timeout
    } else {
        WgcStep::PollAgain
    }
}

/// The message shown when the captured content changed its size: what the
/// size was and what it is now, and that streaming has to be restarted.
pub fn resized_message(width: u32, height: u32, new_width: i32, new_height: i32) -> (message:
    String)
    ensures
        message@ == "キャプチャ対象のサイズが"@ + decimal(width as nat) + "x"@ + decimal(
            height as nat,
        ) + "から"@ + signed_decimal(new_width as int) + "x"@ + signed_decimal(new_height as int)
            + "に変わりました。一度配信を停止し、再度開始してください。"@,
{
    "キャプチャ対象のサイズが".to_owned().concat(decimal_string(width as u64).as_str()).concat(
        "x",
    ).concat(decimal_string(height as u64).as_str()).concat("から").concat(
        signed_decimal_string(new_width as i64).as_str(),
    ).concat("x").concat(signed_decimal_string(new_height as i64).as_str()).concat(
        "に変わりました。一度配信を停止し、再度開始してください。",
    )
}

// ---------------------------------------------------------------------
// Laws
// ---------------------------------------------------------------------

/// How capturing starts, and what is tried next. A window is opened itself,
/// through WGC, unless DXGI is forced, which can't do it. A monitor is opened
/// itself, through DXGI unless WGC is forced; if that fails and no API is
/// forced, the same monitor is opened through WGC. Nothing else is tried.
pub proof fn law_what_is_opened(
    source: CaptureSource,
    backend: Backend,
    step: CaptureStep,
    next: Option<CaptureStep>,
    last: Option<CaptureStep>,
)
    requires
        call_ensures(start_capture, (source, backend), step),
        call_ensures(after_open_failed, (step, backend), next),
        next matches Some(n) ==> call_ensures(after_open_failed, (n, backend), last),
    ensures
        source matches CaptureSource::Window { hwnd } ==> {
            &&& step is RefuseWindowOverDxgi <==> backend is ForceDxgi
            &&& !(backend is ForceDxgi) ==> step == (CaptureStep::OpenWindow { hwnd })
            &&& next is None
        },
        source matches CaptureSource::Monitor { adapter_index, output_index } ==> {
            let dxgi = CaptureStep::OpenMonitorDxgi { adapter_index, output_index };
            let wgc = CaptureStep::OpenMonitorWgc { adapter_index, output_index };
            &&& backend is Auto ==> step == dxgi && next == Some(wgc) && last is None
            &&& backend is ForceDxgi ==> step == dxgi && next is None
            &&& backend is ForceWgc ==> step == wgc && next is None
        },
{
}

/// A monitor is as wide as its edges are apart, and a window as large as the
/// system says, if it has any size at all.
pub proof fn law_sizes(
    left: i32,
    top: i32,
    right: i32,
    bottom: i32,
    monitor: (u32, u32),
    width: i32,
    height: i32,
    window: Option<(u32, u32)>,
)
    requires
        i32::MIN <= right - left <= i32::MAX,
        i32::MIN <= bottom - top <= i32::MAX,
        call_ensures(monitor_size, (left, top, right, bottom), monitor),
        call_ensures(window_size, (width, height), window),
    ensures
        right >= left ==> left + monitor.0 == right,
        bottom >= top ==> top + monitor.1 == bottom,
        right < left ==> left + monitor.0 == right + 0x1_0000_0000,
        bottom < top ==> top + monitor.1 == bottom + 0x1_0000_0000,
        window is Some <==> width > 0 && height > 0,
        window matches Some(size) ==> size.0 == width && size.1 == height,
{
}

/// What one attempt to acquire a frame leads to. A new image is copied, and
/// reported with its pixel format if it is the first; anything else that was
/// acquired is just released. After the first five losses in a row the
/// duplication is recreated at once, after further ones with a pause of 50
/// milliseconds, and from the 201st on it is given up. Any frame that is
/// acquired starts the counting again, and nothing else does.
pub proof fn law_one_attempt(state: &mut DxgiState, outcome: Acquired, step: DxgiStep)
    requires
        call_ensures(DxgiState::next_frame, (state, outcome), step),
        outcome is AccessLost ==> old(state).consecutive_access_lost < u32::MAX,
    ensures
        outcome matches Acquired::Frame { presented, resource } ==> {
            &&& presented && resource <==> step is CopyFrame
            &&& !(presented && resource) <==> step is ReleaseOnly
            &&& step matches DxgiStep::CopyFrame { log_format } ==> (log_format
                <==> !old(state).format_logged)
            &&& final(state).consecutive_access_lost == 0
            &&& final(state).format_logged <==> old(state).format_logged || (presented && resource)
        },
        !(outcome is Frame) ==> final(state).format_logged == old(state).format_logged,
        outcome is WaitTimeout <==> step is NoFrame,
        outcome is Failed <==> step is Fail,
        outcome is AccessLost ==> {
            let losses = old(state).consecutive_access_lost + 1;
            &&& final(state).consecutive_access_lost == losses
            &&& step is GiveUp <==> losses > 200
            &&& step is Recreate <==> losses <= 200
            &&& step matches DxgiStep::Recreate { pause_ms } ==> pause_ms == if losses <= 5 {
                0int
            } else {
                50
            }
        },
        outcome is WaitTimeout || outcome is Failed ==> final(state).consecutive_access_lost == old(
            state,
        ).consecutive_access_lost,
{
}

/// A session starts without losses, and reports the pixel format of its first
/// image.
pub proof fn law_new_session(state: &mut DxgiState, outcome: Acquired, step: DxgiStep)
    requires
        call_ensures(DxgiState::new, (), *old(state)),
        call_ensures(DxgiState::next_frame, (state, outcome), step),
    ensures
        step matches DxgiStep::CopyFrame { log_format } ==> log_format,
        outcome is AccessLost ==> step == (DxgiStep::Recreate { pause_ms: 0 }),
{
}

/// A poll for a frame of a window. Content of another size ends the session,
/// whatever else there is; otherwise a frame that was copied is returned,
/// late or not; and without one polling goes on until the deadline and no
/// longer.
pub proof fn law_one_poll(
    width: u32,
    height: u32,
    frame: Option<(Option<(i32, i32)>, bool)>,
    now: u128,
    deadline: u128,
    step: WgcStep,
)
    requires
        call_ensures(poll_step, (width, height, frame, now, deadline), step),
    ensures
        frame matches Some((Some((w, h)), _)) ==> {
            &&& w >= 0 && h >= 0 ==> (step is Resized <==> w != width || h != height)
            &&& (w < 0 || h < 0) && width <= i32::MAX && height <= i32::MAX ==> step is Resized
        },
        step is Resized ==> frame matches Some((Some(_), _)),
        frame matches Some((_, true)) ==> step is Resized || step is Frame,
        step is Frame ==> frame matches Some((_, true)),
        step is Timeout ==> now >= deadline,
        step is PollAgain ==> now < deadline,
        frame is None ==> step is Timeout || step is PollAgain,
        frame matches Some((None, false)) ==> step is Timeout || step is PollAgain,
{
}

/// The message for a changed size names the old size and then the new one.
pub proof fn law_resized_message(
    width: u32,
    height: u32,
    new_width: i32,
    new_height: i32,
    message: String,
)
    requires
        call_ensures(resized_message, (width, height, new_width, new_height), message),
    ensures
        exists|start: Seq<char>, between: Seq<char>, end: Seq<char>|
            message@ == #[trigger] ((start + decimal(width as nat) + "x"@ + decimal(height as nat)
                + between + signed_decimal(new_width as int) + "x"@ + signed_decimal(
                new_height as int,
            )) + end) && start.len() > 0 && between.len() > 0 && end.len() > 0,
{
    reveal_strlit("キャプチャ対象のサイズが");
    reveal_strlit("から");
    reveal_strlit("に変わりました。一度配信を停止し、再度開始してください。");
    let start = "キャプチャ対象のサイズが"@;
    let between = "から"@;
    let end = "に変わりました。一度配信を停止し、再度開始してください。"@;
    assert(message@ == (start + decimal(width as nat) + "x"@ + decimal(height as nat) + between
        + signed_decimal(new_width as int) + "x"@ + signed_decimal(new_height as int)) + end);
}

} // verus!
