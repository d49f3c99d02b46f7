//! What the settings window does: defaults for the form, starting and
//! stopping the stream, and warning when capture doesn't seem to work.
//!
//! Per-session UI state (selected target or window, fps, bitrate, etc.)
//! lives in the form itself, not here: the window just sends resolved values
//! to [`Gui::start_streaming`].
use vstd::prelude::*;

use crate::args::{Args, ArgsView, SfuMode};
use crate::capture::{CaptureSource, WindowTarget};
use crate::decimal::{
    lemma_signed_decimal_reads_back, parse_isize, signed_decimal, signed_decimal_string,
    signed_within,
};
use crate::pacing::NANOS_PER_SEC;
use crate::status::FrameRate;
use crate::text::same_text;

verus! {

/// What to say if barely any frames come.
pub const CAPTURE_WARNING: &'static str =
    "Barely any frames are being captured. The capture target might just be static (moving it should recover). OpenGL/Vulkan titles in exclusive fullscreen can't reach full frame rate due to DXGI limitations — try borderless windowed mode, or switch streaming mode.";

/// How long a stream may take to warm up before it is warned about, in
/// seconds.
pub const WARM_UP_SECS: u64 = 5;

/// The rate below which a stream is warned about, in frames per second.
pub const LOW_FPS: u32 = 5;

/// What to say if a stream is started while one is running.
pub const ALREADY_STREAMING: &'static str = "already streaming";

/// What to say if a window handle can't be read.
pub const INVALID_HANDLE: &'static str = "invalid window handle";

/// What the form starts out with.
pub struct Defaults {
    pub fps_choices: [u32; 5],
    pub default_fps: u32,
    pub default_bitrate_mbps: u32,
    pub default_use_mesh: bool,
    pub default_public_host: String,
}

/// What the form asks for.
pub struct StartSettings {
    /// "monitor" or "window".
    pub capture_mode: String,
    pub adapter_index: u32,
    pub output_index: u32,
    pub window_hwnd: Option<String>,
    pub fps: u32,
    pub bitrate_mbps: u32,
    pub use_mesh: bool,
    pub public_host: String,
    pub host_token: String,
}

/// A window as the form has it. The handle is text: as a JSON number it
/// would risk silent precision loss, and the form only ever echoes it back.
pub struct WindowTargetDto {
    pub hwnd: String,
    pub title: String,
}

/// The handle that a text spells.
pub open spec fn handle_of(text: Seq<char>) -> Option<isize> {
    match signed_within(text, isize::MIN as int, isize::MAX as int) {
        Some(n) => Some(n as isize),
        None => None,
    }
}

/// The window handle that the form asks for.
pub open spec fn asked_window(settings: StartSettings) -> Option<isize> {
    match settings.window_hwnd {
        Some(text) => handle_of(text@),
        None => None,
    }
}

/// The settings to stream with: what the form asks for, and the rest as on
/// the command line. A monitor replaces a window, but a window leaves the
/// monitor as it was.
pub open spec fn stream_args(base: ArgsView, settings: StartSettings) -> ArgsView {
    let window = settings.capture_mode@ == "window"@;
    ArgsView {
        window_hwnd: if window {
            asked_window(settings)
        } else {
            None
        },
        adapter_index: if window {
            base.adapter_index
        } else {
            settings.adapter_index
        },
        output_index: if window {
            base.output_index
        } else {
            settings.output_index
        },
        fps: settings.fps,
        bitrate_bps: (settings.bitrate_mbps * 1_000_000) as u32,
        sfu: if settings.use_mesh {
            SfuMode::Mesh
        } else {
            SfuMode::Direct
        },
        public_host: settings.public_host@,
        host_token: settings.host_token@,
        ..base
    }
}

/// What the settings window remembers. Times are in nanoseconds.
pub struct Gui {
    base_args: Args,
    /// Whether a stream has been started and not been stopped.
    worker: bool,
    /// When streaming started; used to exclude the initial warm-up period
    /// from the capture-failure warning check.
    running_since: Option<u128>,
}

/// What [`Gui`] remembers.
#[verifier::ext_equal]
pub struct GuiView {
    pub base_args: ArgsView,
    pub worker: bool,
    pub running_since: Option<u128>,
}

impl View for Gui {
    type V = GuiView;

    closed spec fn view(&self) -> GuiView {
        GuiView {
            base_args: self.base_args@,
            worker: self.worker,
            running_since: self.running_since,
        }
    }
}

/// Whether to warn: streaming has been running for a while, and hardly any
/// frames come.
pub open spec fn warns(running_since: Option<u128>, now: u128, rate: FrameRate) -> bool {
    match running_since {
        Some(since) => now - since > WARM_UP_SECS * NANOS_PER_SEC && rate.is_below(LOW_FPS as int),
        None => false,
    }
}

impl Gui {
    /// A window for a host with the given command line. Nothing runs yet.
    pub fn new(base_args: Args) -> (gui: Self)
        ensures
            gui@ == (GuiView { base_args: base_args@, worker: false, running_since: None }),
    {
        Gui { base_args, worker: false, running_since: None }
    }

    /// Whether a stream is running, given whether the pipeline says so.
    pub fn is_running(&self, pipeline_running: bool) -> (running: bool)
        ensures
            running == (pipeline_running || self@.worker),
    {
        pipeline_running || self.worker
    }

    /// What the form starts out with.
    pub fn get_defaults(&self) -> (defaults: Defaults)
        ensures
            defaults.fps_choices@ == seq![60u32, 120, 144, 165, 240],
            defaults.default_fps == self@.base_args.fps,
            defaults.default_bitrate_mbps == if self@.base_args.bitrate_bps < 1_000_000 {
                1
            } else {
                self@.base_args.bitrate_bps / 1_000_000
            },
            defaults.default_use_mesh == (self@.base_args.sfu == SfuMode::Mesh),
            defaults.default_public_host@ == self@.base_args.public_host,
    {
        let mbps: u32 = self.base_args.bitrate_bps / 1_000_000;
        Defaults {
            fps_choices: [60, 120, 144, 165, 240],
            default_fps: self.base_args.fps,
            default_bitrate_mbps: if mbps > 1 {
                mbps
            } else {
                1
            },
            default_use_mesh: matches!(self.base_args.sfu, SfuMode::Mesh),
            default_public_host: self.base_args.public_host.clone(),
        }
    }

    /// Starts a stream with what the form asks for. `None` if one is running
    /// already, given whether the pipeline says so.
    pub fn start_streaming(
        &mut self,
        pipeline_running: bool,
        settings: StartSettings,
        now: u128,
    ) -> (args: Option<Args>)
        requires
            !(pipeline_running || old(self)@.worker) ==> settings.bitrate_mbps * 1_000_000
                <= u32::MAX,
        ensures
            args is None <==> (pipeline_running || old(self)@.worker),
            args is None ==> final(self)@ == old(self)@,
            args matches Some(a) ==> a@ == stream_args(old(self)@.base_args, settings)
                && final(self)@ == (GuiView {
                worker: true,
                running_since: Some(now),
                ..old(self)@
            }),
    {
        if self.is_running(pipeline_running) {
            return None;
        }
        let mut args = self.base_args.clone();
        if same_text(settings.capture_mode.as_str(), "window") {
            args.window_hwnd = match &settings.window_hwnd {
                Some(text) => parse_isize(text.as_str()),
                None => None,
            };
        } else {
            args.adapter_index = settings.adapter_index;
            args.output_index = settings.output_index;
            args.window_hwnd = None;
        }
        args.fps = settings.fps;
        args.bitrate_bps = settings.bitrate_mbps * 1_000_000;
        args.sfu = if settings.use_mesh {
            SfuMode::Mesh
        } else {
            SfuMode::Direct
        };
        args.public_host = settings.public_host;
        args.host_token = settings.host_token;
        self.worker = true;
        self.running_since = Some(now);
        Some(args)
    }

    /// Forgets the stream that was started. It ends by itself once it
    /// notices that it was stopped.
    pub fn stop_streaming(&mut self)
        ensures
            final(self)@ == (GuiView { worker: false, running_since: None, ..old(self)@ }),
    {
        self.worker = false;
        self.running_since = None;
    }

    /// If fps stays near zero a few seconds after streaming starts, assume
    /// capture isn't actually working and say so. There's no reliable way to
    /// directly detect the game's graphics API, so this symptom-based check
    /// stands in for it.
    pub fn capture_warning(&self, now: u128, measured_fps: FrameRate) -> (warning: Option<String>)
        ensures
            match warning {
                Some(text) => warns(self@.running_since, now, measured_fps) && text@
                    == CAPTURE_WARNING@,
                None => !warns(self@.running_since, now, measured_fps),
            },
    {
        let since: u128 = match self.running_since {
            Some(since) => since,
            None => {
                return None;
            },
        };
        let frames: u128 = measured_fps.frames as u128 * NANOS_PER_SEC as u128;
        if now > since && now - since > WARM_UP_SECS as u128 * NANOS_PER_SEC as u128
            && measured_fps.nanos > frames / LOW_FPS as u128 {
            Some(CAPTURE_WARNING.to_owned())
        } else {
            None
        }
    }
}

/// A window as the form has it.
pub fn window_dto(window: WindowTarget) -> (dto: WindowTargetDto)
    ensures
        dto.hwnd@ == signed_decimal(window.hwnd as int),
        dto.title == window.title,
{
    WindowTargetDto { hwnd: signed_decimal_string(window.hwnd as i64), title: window.title }
}

/// The window handle that the form sent back.
pub fn window_handle(text: &str) -> (handle: Result<isize, String>)
    ensures
        match handle {
            Ok(hwnd) => handle_of(text@) == Some(hwnd),
            Err(message) => handle_of(text@) is None && message@ == INVALID_HANDLE@,
        },
{
    match parse_isize(text) {
        Some(hwnd) => Ok(hwnd),
        None => Err(INVALID_HANDLE.to_owned()),
    }
}

/// What the form wants to switch to: a window if its handle is given, or
/// else a monitor.
pub fn switched_source(adapter_index: u32, output_index: u32, window_hwnd: Option<&str>) -> (source:
    Result<CaptureSource, String>)
    ensures
        match window_hwnd {
            Some(text) => match source {
                Ok(s) => handle_of(text@) is Some && s == (CaptureSource::Window {
                    hwnd: handle_of(text@)->0,
                }),
                Err(message) => handle_of(text@) is None && message@ == INVALID_HANDLE@,
            },
            None => source == Ok::<CaptureSource, String>(
                CaptureSource::Monitor { adapter_index, output_index },
            ),
        },
{
    match window_hwnd {
        Some(text) => match window_handle(text) {
            Ok(hwnd) => Ok(CaptureSource::Window { hwnd }),
            Err(message) => Err(message),
        },
        None => Ok(CaptureSource::Monitor { adapter_index, output_index }),
    }
}

// ---------------------------------------------------------------------
// Laws
// ---------------------------------------------------------------------

/// A window handle survives the way to the form and back.
pub proof fn law_handle_survives(hwnd: isize)
    ensures
        handle_of(signed_decimal(hwnd as int)) == Some(hwnd),
{
    lemma_signed_decimal_reads_back(hwnd as int);
}

/// Whatever the form asks for, the server, the STUN server, the port, the
/// capture API and the way the host was started stay as on the command line.
pub proof fn law_form_keeps_the_rest(base: ArgsView, settings: StartSettings)
    ensures
        ({
            let args = stream_args(base, settings);
            &&& args.backend_url == base.backend_url
            &&& args.stun_server == base.stun_server
            &&& args.port == base.port
            &&& args.capture_backend == base.capture_backend
            &&& args.headless == base.headless
        }),
{
}

/// Choosing a monitor captures that monitor, even if the command line named
/// a window.
pub proof fn law_monitor_choice_counts(base: ArgsView, settings: StartSettings)
    requires
        settings.capture_mode@ != "window"@,
    ensures
        crate::args::source_of(stream_args(base, settings))
            == (CaptureSource::Monitor {
            adapter_index: settings.adapter_index,
            output_index: settings.output_index,
        }),
{
}

/// A stream is started exactly if none is running, and then with what the
/// form asks for: its frame rate, its bitrate in millions of bits per second,
/// its mode, host and token; and its window or its monitor. The rest is as on
/// the command line.
pub proof fn law_starting(
    gui: &mut Gui,
    pipeline_running: bool,
    settings: StartSettings,
    now: u128,
    running: bool,
    args: Option<Args>,
)
    requires
        !(pipeline_running || old(gui)@.worker) ==> settings.bitrate_mbps * 1_000_000 <= u32::MAX,
        call_ensures(Gui::is_running, (old(gui), pipeline_running), running),
        call_ensures(Gui::start_streaming, (gui, pipeline_running, settings, now), args),
    ensures
        args is Some <==> !running,
        args matches Some(a) ==> {
            &&& a.fps == settings.fps
            &&& a.bitrate_bps == settings.bitrate_mbps * 1_000_000
            &&& a.sfu is Mesh <==> settings.use_mesh
            &&& a.public_host@ == settings.public_host@
            &&& a.host_token@ == settings.host_token@
            &&& settings.capture_mode@ != "window"@ ==> a.window_hwnd is None && a.adapter_index
                == settings.adapter_index && a.output_index == settings.output_index
            &&& settings.capture_mode@ == "window"@ && settings.window_hwnd is None
                ==> a.window_hwnd is None
            &&& settings.capture_mode@ == "window"@ ==> a.adapter_index
                == old(gui)@.base_args.adapter_index && a.output_index
                == old(gui)@.base_args.output_index
            &&& a.backend_url@ == old(gui)@.base_args.backend_url
            &&& a.stun_server@ == old(gui)@.base_args.stun_server
            &&& a.port == old(gui)@.base_args.port
            &&& a.capture_backend == old(gui)@.base_args.capture_backend
            &&& a.headless == old(gui)@.base_args.headless
            &&& final(gui)@.worker
            &&& final(gui)@.running_since == Some(now)
        },
        args is None ==> final(gui)@ == old(gui)@,
        final(gui)@.base_args == old(gui)@.base_args,
{
}

/// The handle of a window that was listed, sent back by the form, starts a
/// stream of that window, and switches a running one to it.
pub proof fn law_listed_window_can_be_captured(
    window: WindowTarget,
    dto: WindowTargetDto,
    text: &str,
    handle: Result<isize, String>,
    adapter_index: u32,
    output_index: u32,
    switched: Result<CaptureSource, String>,
    gui: &mut Gui,
    settings: StartSettings,
    now: u128,
    args: Option<Args>,
)
    requires
        call_ensures(window_dto, (window,), dto),
        text@ == dto.hwnd@,
        call_ensures(window_handle, (text,), handle),
        call_ensures(switched_source, (adapter_index, output_index, Some(text)), switched),
        settings.capture_mode@ == "window"@,
        settings.window_hwnd matches Some(sent) && sent@ == dto.hwnd@,
        !old(gui)@.worker,
        settings.bitrate_mbps * 1_000_000 <= u32::MAX,
        call_ensures(Gui::start_streaming, (gui, false, settings, now), args),
    ensures
        dto.title@ == window.title@,
        handle == Ok::<isize, String>(window.hwnd),
        switched == Ok::<CaptureSource, String>(CaptureSource::Window { hwnd: window.hwnd }),
        args matches Some(a) && a.window_hwnd == Some(window.hwnd),
{
    law_handle_survives(window.hwnd);
}

/// Without a window handle the form switches to the monitor that it names,
/// and with one that can't be read to nothing.
pub proof fn law_switching(
    adapter_index: u32,
    output_index: u32,
    monitor: Result<CaptureSource, String>,
    text: &str,
    window: Result<CaptureSource, String>,
)
    requires
        call_ensures(switched_source, (adapter_index, output_index, None::<&str>), monitor),
        call_ensures(switched_source, (adapter_index, output_index, Some(text)), window),
    ensures
        monitor == Ok::<CaptureSource, String>(
            CaptureSource::Monitor { adapter_index, output_index },
        ),
        window matches Ok(source) ==> source is Window,
        window is Err <==> handle_of(text@) is None,
        window matches Err(message) ==> message@ == "invalid window handle"@,
{
}

/// A stream that was stopped is forgotten, and another can be started as soon
/// as the pipeline has ended too.
pub proof fn law_stopping(
    gui: &mut Gui,
    pipeline_running: bool,
    running: bool,
    now: u128,
    rate: FrameRate,
    warning: Option<String>,
)
    requires
        call_ensures(Gui::stop_streaming, (gui,), ()),
        call_ensures(Gui::is_running, (final(gui), pipeline_running), running),
        call_ensures(Gui::capture_warning, (final(gui), now, rate), warning),
    ensures
        running == pipeline_running,
        warning is None,
        final(gui)@.base_args == old(gui)@.base_args,
{
}

/// A new window runs nothing, and remembers the command line.
pub proof fn law_new_window(base_args: Args, gui: Gui, pipeline_running: bool, running: bool)
    requires
        call_ensures(Gui::new, (base_args,), gui),
        call_ensures(Gui::is_running, (&gui, pipeline_running), running),
    ensures
        running == pipeline_running,
        gui@.base_args == base_args@,
        gui@.running_since is None,
{
}

/// The form starts out with the command line's frame rate, mode and host, and
/// with its bitrate in whole millions, at least one.
pub proof fn law_form_starts_with_the_command_line(gui: Gui, defaults: Defaults)
    requires
        call_ensures(Gui::get_defaults, (&gui,), defaults),
    ensures
        defaults.default_fps == gui@.base_args.fps,
        defaults.default_use_mesh <==> gui@.base_args.sfu is Mesh,
        defaults.default_public_host@ == gui@.base_args.public_host,
        defaults.default_bitrate_mbps >= 1,
        gui@.base_args.bitrate_bps >= 1_000_000 ==> defaults.default_bitrate_mbps * 1_000_000
            <= gui@.base_args.bitrate_bps < (defaults.default_bitrate_mbps + 1) * 1_000_000,
        gui@.base_args.bitrate_bps < 1_000_000 ==> defaults.default_bitrate_mbps == 1,
        defaults.fps_choices@.len() == 5,
        defaults.fps_choices@[0] == 60 && defaults.fps_choices@[4] == 240,
        forall|i: int, j: int|
            0 <= i < j < 5 ==> #[trigger] defaults.fps_choices@[i]
                < #[trigger] defaults.fps_choices@[j],
{
}

/// A stream is warned about exactly if it has been running for more than five
/// seconds and fewer than five frames come per second.
pub proof fn law_warning(gui: Gui, now: u128, rate: FrameRate, warning: Option<String>)
    requires
        call_ensures(Gui::capture_warning, (&gui, now, rate), warning),
    ensures
        warning is Some <==> gui@.running_since is Some && now > gui@.running_since->0
            + 5_000_000_000 && rate.frames * 1_000_000_000 < 5 * rate.nanos,
{
}

} // verus!
