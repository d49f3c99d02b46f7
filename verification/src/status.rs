//! State shared between the GUI and the streaming pipeline: the pipeline
//! updates it, the GUI displays it.
use vstd::prelude::*;

use crate::args::Args;
use crate::decimal::decimal;
use crate::pacing::NANOS_PER_SEC;
use crate::urls::{direct_url, watch_url};

verus! {

/// A rate of frames: so many within so many nanoseconds.
#[derive(Debug, Clone, Copy, PartialEq, Eq, Structural)]
pub struct FrameRate {
    pub frames: u32,
    pub nanos: u128,
}

impl FrameRate {
    /// No frames.
    pub fn zero() -> (rate: Self)
        ensures
            rate == (FrameRate { frames: 0, nanos: NANOS_PER_SEC as u128 }),
    {
        FrameRate { frames: 0, nanos: NANOS_PER_SEC as u128 }
    }

    /// Whether there are fewer frames than `fps` per second.
    pub open spec fn is_below(self, fps: int) -> bool {
        self.frames * NANOS_PER_SEC < fps * self.nanos
    }
}

/// The host's state.
pub struct HostStatus {
    pub running: bool,
    pub room_code: String,
    pub viewer_url: String,
    pub measured_fps: FrameRate,
    pub width: u32,
    pub height: u32,
    /// Current target bitrate from bandwidth adaptation.
    pub current_bitrate_bps: u32,
    pub error: Option<String>,
}

/// What [`HostStatus`] says.
#[verifier::ext_equal]
pub struct StatusView {
    pub running: bool,
    pub room_code: Seq<char>,
    pub viewer_url: Seq<char>,
    pub measured_fps: FrameRate,
    pub width: u32,
    pub height: u32,
    pub current_bitrate_bps: u32,
    pub error: Option<Seq<char>>,
}

impl View for HostStatus {
    type V = StatusView;

    open spec fn view(&self) -> StatusView {
        StatusView {
            running: self.running,
            room_code: self.room_code@,
            viewer_url: self.viewer_url@,
            measured_fps: self.measured_fps,
            width: self.width,
            height: self.height,
            current_bitrate_bps: self.current_bitrate_bps,
            error: match self.error {
                Some(text) => Some(text@),
                None => None,
            },
        }
    }
}

/// The state before anything was started.
pub open spec fn initial() -> StatusView {
    StatusView {
        running: false,
        room_code: Seq::empty(),
        viewer_url: Seq::empty(),
        measured_fps: FrameRate { frames: 0, nanos: NANOS_PER_SEC as u128 },
        width: 0,
        height: 0,
        current_bitrate_bps: 0,
        error: None,
    }
}

impl Default for HostStatus {
    fn default() -> (status: Self)
        ensures
            status@ == initial(),
    {
        HostStatus {
            running: false,
            room_code: String::new(),
            viewer_url: String::new(),
            measured_fps: FrameRate::zero(),
            width: 0,
            height: 0,
            current_bitrate_bps: 0,
            error: None,
        }
    }
}

impl Clone for HostStatus {
    fn clone(&self) -> (copy: Self)
        ensures
            copy@ == self@,
    {
        HostStatus {
            running: self.running,
            room_code: self.room_code.clone(),
            viewer_url: self.viewer_url.clone(),
            measured_fps: self.measured_fps,
            width: self.width,
            height: self.height,
            current_bitrate_bps: self.current_bitrate_bps,
            error: match &self.error {
                Some(text) => Some(text.clone()),
                None => None,
            },
        }
    }
}

impl HostStatus {
    /// Viewers can now watch on the host's own page.
    pub fn opened_direct(&mut self, args: &Args)
        ensures
            final(self)@ == (StatusView {
                room_code: "(direct)"@,
                viewer_url: "http://"@ + args.public_host@ + ":"@ + decimal(args.port as nat)
                    + "/"@,
                ..old(self)@
            }),
    {
        self.room_code = "(direct)".to_owned();
        self.viewer_url = direct_url(args.public_host.as_str(), args.port);
    }

    /// Viewers can now watch on the server's page.
    pub fn opened_room(&mut self, args: &Args, room_code: String)
        ensures
            final(self)@ == (StatusView {
                room_code: room_code@,
                viewer_url: args.backend_url@ + "/watch/"@ + room_code@,
                ..old(self)@
            }),
    {
        self.viewer_url = watch_url(args.backend_url.as_str(), room_code.as_str());
        self.room_code = room_code;
    }

    /// Streaming has started.
    pub fn started(&mut self)
        ensures
            final(self)@ == (StatusView { running: true, ..old(self)@ }),
    {
        self.running = true;
    }

    /// What is captured has this size.
    pub fn capturing(&mut self, width: u32, height: u32)
        ensures
            final(self)@ == (StatusView { width, height, ..old(self)@ }),
    {
        self.width = width;
        self.height = height;
    }

    /// Frames came at this rate.
    pub fn measured(&mut self, rate: FrameRate)
        ensures
            final(self)@ == (StatusView { measured_fps: rate, ..old(self)@ }),
    {
        self.measured_fps = rate;
    }

    /// Frames are encoded at this bitrate.
    pub fn encoding_at(&mut self, bitrate_bps: u32)
        ensures
            final(self)@ == (StatusView { current_bitrate_bps: bitrate_bps, ..old(self)@ }),
    {
        self.current_bitrate_bps = bitrate_bps;
    }

    /// Streaming has been stopped by the user.
    pub fn stopped(&mut self)
        ensures
            final(self)@ == (StatusView { running: false, ..old(self)@ }),
    {
        self.running = false;
    }

    /// Streaming has ended, possibly with an error. An earlier error stays
    /// unless there is a new one.
    pub fn ended(&mut self, error: Option<String>)
        ensures
            final(self)@ == (StatusView {
                running: false,
                error: match error {
                    Some(text) => Some(text@),
                    None => old(self)@.error,
                },
                ..old(self)@
            }),
    {
        self.running = false;
        match error {
            Some(text) => {
                self.error = Some(text);
            },
            None => {},
        }
    }

    /// Streaming could not even be started.
    pub fn failed(&mut self, error: String)
        ensures
            final(self)@ == (StatusView { error: Some(error@), ..old(self)@ }),
    {
        self.error = Some(error);
    }
}

/// Whether two states say the same apart from what viewers open.
pub open spec fn same_but_address(a: StatusView, b: StatusView) -> bool {
    &&& a.running == b.running && a.measured_fps == b.measured_fps && a.error == b.error
    &&& a.width == b.width && a.height == b.height
    &&& a.current_bitrate_bps == b.current_bitrate_bps
}

/// Whether two states name the same page for viewers.
pub open spec fn same_address(a: StatusView, b: StatusView) -> bool {
    a.room_code == b.room_code && a.viewer_url == b.viewer_url
}

/// A stream runs from when it was started until it was stopped or has ended.
/// Ending with an error shows that error, ending without one leaves an
/// earlier one; stopping never shows any. None of this changes where viewers
/// watch or what was measured.
pub proof fn law_running(
    started: &mut HostStatus,
    stopped: &mut HostStatus,
    ended: &mut HostStatus,
    ended_well: &mut HostStatus,
    failed: &mut HostStatus,
    error: String,
)
    requires
        call_ensures(HostStatus::started, (started,), ()),
        call_ensures(HostStatus::stopped, (stopped,), ()),
        call_ensures(HostStatus::ended, (ended, Some(error)), ()),
        call_ensures(HostStatus::ended, (ended_well, None), ()),
        call_ensures(HostStatus::failed, (failed, error), ()),
    ensures
        final(started)@.running,
        !final(stopped)@.running && !final(ended)@.running && !final(ended_well)@.running,
        final(failed)@.running == old(failed)@.running,
        final(ended)@.error == Some(error@),
        final(failed)@.error == Some(error@),
        final(ended_well)@.error == old(ended_well)@.error,
        final(started)@.error == old(started)@.error,
        final(stopped)@.error == old(stopped)@.error,
        same_address(final(started)@, old(started)@),
        same_address(final(stopped)@, old(stopped)@),
        same_address(final(ended)@, old(ended)@),
        same_address(final(ended_well)@, old(ended_well)@),
        same_address(final(failed)@, old(failed)@),
        final(started)@.measured_fps == old(started)@.measured_fps,
        final(ended)@.measured_fps == old(ended)@.measured_fps,
        final(started)@.current_bitrate_bps == old(started)@.current_bitrate_bps,
        final(ended)@.current_bitrate_bps == old(ended)@.current_bitrate_bps,
        final(started)@.width == old(started)@.width && final(started)@.height
            == old(started)@.height,
{
}

/// What is measured is shown as it is, each value in its own place.
pub proof fn law_measurements(
    capturing: &mut HostStatus,
    width: u32,
    height: u32,
    measured: &mut HostStatus,
    rate: FrameRate,
    encoding: &mut HostStatus,
    bitrate_bps: u32,
)
    requires
        call_ensures(HostStatus::capturing, (capturing, width, height), ()),
        call_ensures(HostStatus::measured, (measured, rate), ()),
        call_ensures(HostStatus::encoding_at, (encoding, bitrate_bps), ()),
    ensures
        final(capturing)@.width == width && final(capturing)@.height == height,
        final(measured)@.measured_fps == rate,
        final(encoding)@.current_bitrate_bps == bitrate_bps,
        final(capturing)@.current_bitrate_bps == old(capturing)@.current_bitrate_bps,
        final(capturing)@.measured_fps == old(capturing)@.measured_fps,
        final(measured)@.current_bitrate_bps == old(measured)@.current_bitrate_bps,
        final(measured)@.width == old(measured)@.width && final(measured)@.height
            == old(measured)@.height,
        final(encoding)@.measured_fps == old(encoding)@.measured_fps,
        final(encoding)@.width == old(encoding)@.width && final(encoding)@.height
            == old(encoding)@.height,
        final(capturing)@.running == old(capturing)@.running,
        final(measured)@.running == old(measured)@.running,
        final(encoding)@.running == old(encoding)@.running,
        same_address(final(capturing)@, old(capturing)@),
        same_address(final(measured)@, old(measured)@),
        same_address(final(encoding)@, old(encoding)@),
{
}

/// Once viewers can watch, the state says where: in a room, on the server's
/// page for that room; without one, on the host's own page.
pub proof fn law_where_viewers_watch(
    args: Args,
    code: String,
    room: &mut HostStatus,
    room_page: String,
    direct: &mut HostStatus,
    own_page: String,
    base: &str,
    code_text: &str,
    host: &str,
)
    requires
        call_ensures(HostStatus::opened_room, (room, &args, code), ()),
        base@ == args.backend_url@,
        code_text@ == code@,
        call_ensures(watch_url, (base, code_text), room_page),
        call_ensures(HostStatus::opened_direct, (direct, &args), ()),
        host@ == args.public_host@,
        call_ensures(direct_url, (host, args.port), own_page),
    ensures
        final(room)@.room_code == code@,
        final(room)@.viewer_url == room_page@,
        final(direct)@.viewer_url == own_page@,
        final(direct)@.room_code == "(direct)"@,
        same_but_address(final(room)@, old(room)@),
        same_but_address(final(direct)@, old(direct)@),
{
}

/// Before anything was started nothing runs, nothing is shown and no frames
/// come; and a copy of a state says the same.
pub proof fn law_initial_state(fresh: HostStatus, none: FrameRate, status: HostStatus, copy: HostStatus)
    requires
        call_ensures(<HostStatus as Default>::default, (), fresh),
        call_ensures(FrameRate::zero, (), none),
        call_ensures(<HostStatus as Clone>::clone, (&status,), copy),
    ensures
        !fresh.running && fresh.error is None,
        fresh.room_code@.len() == 0 && fresh.viewer_url@.len() == 0,
        fresh.width == 0 && fresh.height == 0 && fresh.current_bitrate_bps == 0,
        fresh.measured_fps == none,
        none.frames == 0 && none.nanos > 0,
        copy.running == status.running && copy.measured_fps == status.measured_fps,
        copy.room_code@ == status.room_code@ && copy.viewer_url@ == status.viewer_url@,
        copy.width == status.width && copy.height == status.height,
        copy.current_bitrate_bps == status.current_bitrate_bps,
        copy.error is Some <==> status.error is Some,
        copy.error is Some ==> copy.error->0@ == status.error->0@,
{
    assert(copy@.error == status@.error);
    assert(fresh@.error is None);
    assert(fresh@.room_code.len() == 0);
    assert(copy@.running == status@.running && copy@.measured_fps == status@.measured_fps);
    assert(copy@.room_code == status@.room_code && copy@.viewer_url == status@.viewer_url);
    assert(copy@.width == status@.width && copy@.height == status@.height);
}

} // verus!
