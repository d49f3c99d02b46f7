use framewire::args::{parse_args, Args, SfuMode};
use framewire::capture::{CaptureSource, WindowTarget};
use framewire::gui::{switched_source, window_dto, window_handle, Gui, StartSettings, CAPTURE_WARNING};
use framewire::status::FrameRate;

const SEC: u128 = 1_000_000_000;

fn base(words: &[&str]) -> Args {
    let words: Vec<String> = words.iter().map(|w| w.to_string()).collect();
    parse_args(&words).0
}

fn settings(mode: &str) -> StartSettings {
    StartSettings {
        capture_mode: mode.to_string(),
        adapter_index: 3,
        output_index: 4,
        window_hwnd: Some("123456".to_string()),
        fps: 144,
        bitrate_mbps: 12,
        use_mesh: false,
        public_host: "10.0.0.5".to_string(),
        host_token: "token".to_string(),
    }
}

#[test]
fn form_starts_out_with_the_command_line() {
    let gui = Gui::new(base(&["--fps", "120", "--bitrate", "7999999", "--public-host", "h"]));
    let d = gui.get_defaults();
    assert_eq!(d.fps_choices, [60, 120, 144, 165, 240]);
    assert_eq!(d.default_fps, 120);
    assert_eq!(d.default_bitrate_mbps, 7);
    assert!(d.default_use_mesh);
    assert_eq!(d.default_public_host, "h");
    let low = Gui::new(base(&["--bitrate", "999999", "--sfu", "direct"])).get_defaults();
    assert_eq!(low.default_bitrate_mbps, 1);
    assert!(!low.default_use_mesh);
}

#[test]
fn choosing_a_window_captures_it() {
    let mut gui = Gui::new(base(&["--adapter", "1", "--port", "99"]));
    let args = gui.start_streaming(false, settings("window"), 0).unwrap();
    assert_eq!(args.source(), CaptureSource::Window { hwnd: 123456 });
    assert_eq!((args.adapter_index, args.output_index), (1, 0));
    assert_eq!((args.fps, args.bitrate_bps), (144, 12_000_000));
    assert_eq!(args.sfu, SfuMode::Direct);
    assert_eq!((args.public_host.as_str(), args.host_token.as_str()), ("10.0.0.5", "token"));
    assert_eq!(args.port, 99);
    assert_eq!(args.backend_url, "https://framewire.hinodeent.com");
}

#[test]
fn choosing_a_monitor_replaces_a_window() {
    let mut gui = Gui::new(base(&["--window", "5"]));
    let mut s = settings("monitor");
    s.use_mesh = true;
    let args = gui.start_streaming(false, s, 0).unwrap();
    assert_eq!(args.source(), CaptureSource::Monitor { adapter_index: 3, output_index: 4 });
    assert_eq!(args.sfu, SfuMode::Mesh);
}

#[test]
fn an_unreadable_window_falls_back_to_the_monitor() {
    let mut gui = Gui::new(base(&["--adapter", "1", "--window", "5"]));
    let mut s = settings("window");
    s.window_hwnd = Some("abc".to_string());
    let args = gui.start_streaming(false, s, 0).unwrap();
    assert_eq!(args.source(), CaptureSource::Monitor { adapter_index: 1, output_index: 0 });
}

#[test]
fn only_one_stream_at_a_time() {
    let mut gui = Gui::new(base(&[]));
    assert!(!gui.is_running(false));
    assert!(gui.is_running(true));
    assert!(gui.start_streaming(true, settings("monitor"), 0).is_none());
    assert!(gui.start_streaming(false, settings("monitor"), 0).is_some());
    assert!(gui.is_running(false));
    assert!(gui.start_streaming(false, settings("monitor"), 0).is_none());
    gui.stop_streaming();
    assert!(!gui.is_running(false));
    assert!(gui.start_streaming(false, settings("monitor"), 0).is_some());
}

#[test]
fn slow_streams_are_warned_about_after_a_while() {
    let slow = FrameRate { frames: 4, nanos: SEC };
    let fine = FrameRate { frames: 5, nanos: SEC };
    let mut gui = Gui::new(base(&[]));
    assert_eq!(gui.capture_warning(100 * SEC, slow), None);
    gui.start_streaming(false, settings("monitor"), 10 * SEC);
    assert_eq!(gui.capture_warning(15 * SEC, slow), None);
    assert_eq!(gui.capture_warning(15 * SEC + 1, slow), Some(CAPTURE_WARNING.to_string()));
    assert_eq!(gui.capture_warning(15 * SEC + 1, fine), None);
    assert!(gui.capture_warning(15 * SEC + 1, FrameRate::zero()).is_some());
    assert!(gui.capture_warning(15 * SEC + 1, FrameRate { frames: 5, nanos: SEC + 1 }).is_some());
    assert_eq!(gui.capture_warning(9 * SEC, slow), None);
    gui.stop_streaming();
    assert_eq!(gui.capture_warning(100 * SEC, slow), None);
}

#[test]
fn warning_text() {
    assert!(CAPTURE_WARNING.starts_with("Barely any frames are being captured. The capture target"));
    assert!(CAPTURE_WARNING.ends_with("try borderless windowed mode, or switch streaming mode."));
}

#[test]
fn window_handles_survive_the_form() {
    for hwnd in [0, 1, -1, 65540, isize::MAX, isize::MIN] {
        let dto = window_dto(WindowTarget { hwnd, title: "Game".to_string() });
        assert_eq!(dto.hwnd, hwnd.to_string());
        assert_eq!(dto.title, "Game");
        assert_eq!(window_handle(&dto.hwnd), Ok(hwnd));
    }
    assert_eq!(window_handle("twelve"), Err("invalid window handle".to_string()));
    assert_eq!(window_handle("99999999999999999999"), Err("invalid window handle".to_string()));
}

#[test]
fn switching_goes_to_a_window_or_a_monitor() {
    assert_eq!(switched_source(1, 2, Some("-7")), Ok(CaptureSource::Window { hwnd: -7 }));
    assert_eq!(
        switched_source(1, 2, None),
        Ok(CaptureSource::Monitor { adapter_index: 1, output_index: 2 })
    );
    assert_eq!(switched_source(1, 2, Some("x")), Err("invalid window handle".to_string()));
}
