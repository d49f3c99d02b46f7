use framewire::args::{parse_args, runs_headless, Args, SfuMode};
use framewire::capture::{Backend, CaptureSource};

fn parse(words: &[&str]) -> (Args, Vec<String>) {
    let words: Vec<String> = words.iter().map(|w| w.to_string()).collect();
    parse_args(&words)
}

#[test]
fn defaults_without_arguments() {
    let (args, warnings) = parse(&[]);
    assert_eq!(args.fps, 60);
    assert_eq!(args.port, 8787);
    assert_eq!(args.bitrate_bps, 20_000_000);
    assert_eq!(args.adapter_index, 0);
    assert_eq!(args.output_index, 0);
    assert_eq!(args.window_hwnd, None);
    assert_eq!(args.capture_backend, Backend::Auto);
    assert_eq!(args.sfu, SfuMode::Mesh);
    assert_eq!(args.backend_url, "https://framewire.hinodeent.com");
    assert_eq!(args.public_host, "127.0.0.1");
    assert!(!args.headless);
    assert_eq!(args.stun_server, "stun.l.google.com:19302");
    assert_eq!(args.host_token, "");
    assert!(warnings.is_empty());
}

#[test]
fn every_option_is_read() {
    let (args, warnings) = parse(&[
        "--fps", "144", "--port", "9000", "--bitrate", "5000000", "--adapter", "1", "--output",
        "2", "--window", "-42", "--capture-backend", "wgc", "--sfu", "direct", "--public-host",
        "10.0.0.5", "--headless", "--stun-server", "stun.example:3478",
    ]);
    assert_eq!(args.fps, 144);
    assert_eq!(args.port, 9000);
    assert_eq!(args.bitrate_bps, 5_000_000);
    assert_eq!(args.adapter_index, 1);
    assert_eq!(args.output_index, 2);
    assert_eq!(args.window_hwnd, Some(-42));
    assert_eq!(args.capture_backend, Backend::ForceWgc);
    assert_eq!(args.sfu, SfuMode::Direct);
    assert_eq!(args.public_host, "10.0.0.5");
    assert!(args.headless);
    assert_eq!(args.stun_server, "stun.example:3478");
    assert!(warnings.is_empty());
    assert_eq!(args.source(), CaptureSource::Window { hwnd: -42 });
}

#[test]
fn unreadable_numbers_keep_the_setting_or_go_back_to_zero() {
    let (args, _) = parse(&["--fps", "fast", "--port", "70000", "--bitrate"]);
    assert_eq!((args.fps, args.port, args.bitrate_bps), (60, 8787, 20_000_000));
    let (args, _) = parse(&["--adapter", "3", "--adapter", "x", "--output", "3", "--output"]);
    assert_eq!((args.adapter_index, args.output_index), (0, 0));
    let (args, _) = parse(&["--window", "7", "--window", "0x7"]);
    assert_eq!(args.window_hwnd, None);
    let (args, _) = parse(&["--fps", "30", "--fps", "nonsense"]);
    assert_eq!(args.fps, 30);
    let (args, _) = parse(&["--fps", "+30"]);
    assert_eq!(args.fps, 30);
}

#[test]
fn backend_and_mode_words() {
    assert_eq!(parse(&["--capture-backend", "dxgi"]).0.capture_backend, Backend::ForceDxgi);
    assert_eq!(parse(&["--capture-backend", "auto"]).0.capture_backend, Backend::Auto);
    assert_eq!(parse(&["--capture-backend"]).0.capture_backend, Backend::Auto);
    assert_eq!(parse(&["--sfu", "mesh"]).0.sfu, SfuMode::Mesh);
    assert_eq!(parse(&["--sfu"]).0.sfu, SfuMode::Direct);
    let (args, warnings) = parse(&["--capture-backend", "magic", "--sfu", "star"]);
    assert_eq!(args.capture_backend, Backend::Auto);
    assert_eq!(args.sfu, SfuMode::Direct);
    assert_eq!(
        warnings,
        vec![
            "warning: unknown --capture-backend 'magic', using auto".to_string(),
            "warning: unknown --sfu 'star', using direct".to_string(),
        ]
    );
}

#[test]
fn unknown_arguments_are_warned_about_in_order() {
    let (args, warnings) = parse(&["--turbo", "--headless", "60"]);
    assert!(args.headless);
    assert_eq!(args.fps, 60);
    assert_eq!(
        warnings,
        vec![
            "warning: ignoring unknown argument '--turbo'".to_string(),
            "warning: ignoring unknown argument '60'".to_string(),
        ]
    );
}

#[test]
fn an_option_swallows_what_follows() {
    let (args, warnings) = parse(&["--public-host", "--headless"]);
    assert_eq!(args.public_host, "--headless");
    assert!(!args.headless);
    assert!(warnings.is_empty());
}

#[test]
fn later_arguments_count() {
    let (args, _) = parse(&["--fps", "30", "--port", "1", "--fps", "120"]);
    assert_eq!((args.fps, args.port), (120, 1));
    assert_eq!(args.backend_url, "https://framewire.hinodeent.com");
}

#[test]
fn source_is_a_monitor_without_a_window() {
    let (args, _) = parse(&["--adapter", "1", "--output", "2"]);
    assert_eq!(args.source(), CaptureSource::Monitor { adapter_index: 1, output_index: 2 });
    assert!(!runs_headless(&args, false));
    assert!(runs_headless(&args, true));
}

#[test]
fn cloned_args_say_the_same() {
    let (args, _) = parse(&["--fps", "30", "--window", "9", "--public-host", "h"]);
    let copy = args.clone();
    assert_eq!((copy.fps, copy.window_hwnd, copy.public_host.as_str()), (30, Some(9), "h"));
    assert_eq!(copy.stun_server, args.stun_server);
}
