use framewire::args::parse_args;
use framewire::status::{FrameRate, HostStatus};

#[test]
fn status_starts_out_empty() {
    let s = HostStatus::default();
    assert!(!s.running);
    assert_eq!((s.room_code.as_str(), s.viewer_url.as_str()), ("", ""));
    assert_eq!((s.width, s.height, s.current_bitrate_bps), (0, 0, 0));
    assert_eq!(s.measured_fps, FrameRate { frames: 0, nanos: 1_000_000_000 });
    assert_eq!(s.error, None);
}

#[test]
fn rooms_show_where_to_watch() {
    let (args, _) = parse_args(&vec!["--public-host".to_string(), "10.0.0.5".to_string()]);
    let mut s = HostStatus::default();
    s.opened_direct(&args);
    assert_eq!(s.room_code, "(direct)");
    assert_eq!(s.viewer_url, "http://10.0.0.5:8787/");
    s.opened_room(&args, "ABC234".to_string());
    assert_eq!(s.room_code, "ABC234");
    assert_eq!(s.viewer_url, "https://framewire.hinodeent.com/watch/ABC234");
}

#[test]
fn status_follows_the_stream() {
    let mut s = HostStatus::default();
    s.started();
    s.capturing(1920, 1080);
    s.measured(FrameRate { frames: 59, nanos: 1_000_000_001 });
    s.encoding_at(14_000_000);
    let copy = s.clone();
    assert!(copy.running);
    assert_eq!((copy.width, copy.height), (1920, 1080));
    assert_eq!(copy.measured_fps.frames, 59);
    assert_eq!(copy.current_bitrate_bps, 14_000_000);
    s.ended(None);
    assert!(!s.running);
    assert_eq!(s.error, None);
    s.started();
    s.ended(Some("lost".to_string()));
    assert_eq!(s.error, Some("lost".to_string()));
    s.ended(None);
    assert_eq!(s.error, Some("lost".to_string()));
    s.failed("no runtime".to_string());
    assert_eq!(s.clone().error, Some("no runtime".to_string()));
    s.started();
    s.stopped();
    assert!(!s.running);
}
