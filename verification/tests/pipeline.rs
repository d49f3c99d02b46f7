use std::time::Duration;

use framewire::args::{parse_args, Args};
use framewire::capture::{Backend, CaptureSource};
use framewire::frame_sender::FrameSender;
use framewire::pacing::frame_duration;
use framewire::pipeline::{
    first_stack, AfterFailure, AfterSend, Attempted, Begin, CaptureFrame, CaptureLoop, FrameStep, SendOutcome, StackRequest,
};
use framewire::status::FrameRate;

const SEC: u128 = 1_000_000_000;

fn args(words: &[&str]) -> Args {
    let words: Vec<String> = words.iter().map(|w| w.to_string()).collect();
    parse_args(&words).0
}

fn sender() -> FrameSender<u8> {
    FrameSender::new(Vec::new(), 20_000_000, None)
}

#[test]
fn frame_durations_agree_with_floating_point() {
    let mut rates: Vec<u32> = (1..=2000).collect();
    rates.extend([
        1024, 4096, 5120, 10240, 51200, 1_000_000, 3_999_999, 500_000_000, 999_999_999,
        1_000_000_000, 2_000_000_000, 2_000_000_001, u32::MAX,
    ]);
    for fps in rates {
        let expected = Duration::from_secs_f64(1.0 / fps as f64).as_nanos();
        assert_eq!(frame_duration(fps) as u128, expected, "at {fps} fps");
    }
    assert_eq!(frame_duration(60), 16_666_667);
    assert_eq!(frame_duration(240), 4_166_667);
    assert_eq!(frame_duration(1), 1_000_000_000);
}

#[test]
fn a_round_begins_with_stopping_or_switching() {
    let l = CaptureLoop::new(&args(&["--bitrate", "7000000", "--fps", "30"]), 0);
    assert_eq!(l.begin(true, None), Begin::Stop);
    assert_eq!(l.begin(true, Some(CaptureSource::Window { hwnd: 1 })), Begin::Stop);
    assert_eq!(l.begin(false, None), Begin::Capture);
    assert_eq!(
        l.begin(false, Some(CaptureSource::Window { hwnd: 1 })),
        Begin::Switch(StackRequest {
            source: CaptureSource::Window { hwnd: 1 },
            backend: Backend::Auto,
            fps: 30,
            bitrate_bps: 7_000_000,
        })
    );
}

#[test]
fn first_stack_is_what_the_settings_ask_for() {
    let request = first_stack(&args(&["--adapter", "2", "--capture-backend", "dxgi"]));
    assert_eq!(
        request,
        StackRequest {
            source: CaptureSource::Monitor { adapter_index: 2, output_index: 0 },
            backend: Backend::ForceDxgi,
            fps: 60,
            bitrate_bps: 20_000_000,
        }
    );
}

#[test]
fn early_frames_are_dropped() {
    let mut l = CaptureLoop::new(&args(&["--fps", "10"]), 5 * SEC);
    assert_eq!(l.on_frame(CaptureFrame::Frame, 5 * SEC - 1, 3), FrameStep::TooEarly);
    assert_eq!(l.on_frame(CaptureFrame::Frame, 5 * SEC, 3), FrameStep::Encode);
    assert_eq!(l.on_frame(CaptureFrame::Frame, 5 * SEC + SEC / 10 - 1, 3), FrameStep::TooEarly);
    // A frame that is a little late does not move the schedule.
    assert_eq!(l.on_frame(CaptureFrame::Frame, 5 * SEC + SEC / 8, 3), FrameStep::Encode);
    assert_eq!(l.next_due, 5 * SEC + SEC / 5);
    // One that is far behind starts the schedule afresh.
    assert_eq!(l.on_frame(CaptureFrame::Frame, 9 * SEC, 3), FrameStep::Encode);
    assert_eq!(l.next_due, 9 * SEC + SEC / 10);
}

#[test]
fn requested_rate_is_not_exceeded() {
    let mut l = CaptureLoop::new(&args(&["--fps", "30"]), 0);
    let mut taken: u128 = 0;
    for i in 0..2400u128 {
        let now = i * SEC / 240;
        if l.on_frame(CaptureFrame::Frame, now, 3) == FrameStep::Encode {
            taken += 1;
        }
        assert!(taken * l.frame_duration as u128 <= now + l.frame_duration as u128);
    }
    assert_eq!(taken, 300);
}

#[test]
fn a_full_send_side_skips_frames_without_a_keyframe() {
    let mut l = CaptureLoop::new(&args(&[]), 0);
    let mut s = sender();
    assert!(l.force_idr(&mut s));
    assert_eq!(l.on_sent(SendOutcome::Sent), AfterSend::Tick);
    assert_eq!(l.on_frame(CaptureFrame::Frame, SEC, 0), FrameStep::BackedUp);
    assert!(l.next_due > SEC);
    assert!(!l.force_idr(&mut s));
}

#[test]
fn a_dropped_encoded_frame_needs_a_keyframe() {
    let mut l = CaptureLoop::new(&args(&[]), 0);
    let mut s = sender();
    assert!(l.force_idr(&mut s));
    l.on_sent(SendOutcome::Sent);
    assert!(!l.force_idr(&mut s));
    assert_eq!(l.on_sent(SendOutcome::Full), AfterSend::NextRound);
    assert_eq!(l.frame_count, 2);
    assert!(l.force_idr(&mut s));
    assert_eq!(l.on_sent(SendOutcome::Sent), AfterSend::Tick);
    assert!(!l.force_idr(&mut s));
    assert_eq!(l.on_sent(SendOutcome::Closed), AfterSend::Stop);
}

#[test]
fn keyframes_of_a_whole_stream() {
    let mut l = CaptureLoop::new(&args(&["--fps", "60"]), 0);
    let mut s = sender();
    let mut last = None;
    for i in 0..400u128 {
        let now = i * SEC / 100;
        if i % 90 == 89 {
            let source = l.source.clone();
            l.built(source, now);
            last = None;
        }
        let capacity = if i % 7 == 3 { 0 } else { 3 };
        if l.on_frame(CaptureFrame::Frame, now, capacity) == FrameStep::Encode {
            let force = l.force_idr(&mut s);
            assert_eq!(force, last.is_none() || last == Some(SendOutcome::Full));
            l.on_encoded(1000, force);
            let outcome = if i % 11 == 5 { SendOutcome::Full } else { SendOutcome::Sent };
            l.on_sent(outcome);
            last = Some(outcome);
        }
    }
}

#[test]
fn viewers_requests_wait_while_there_is_another_reason() {
    let mut l = CaptureLoop::new(&args(&[]), 0);
    let mut s = sender();
    s.viewer_connected("v".to_string(), 1);
    assert!(l.force_idr(&mut s));
    l.on_sent(SendOutcome::Sent);
    assert!(l.force_idr(&mut s));
    l.on_sent(SendOutcome::Sent);
    assert!(!l.force_idr(&mut s));
}

#[test]
fn giving_up_falls_back_to_the_other_api() {
    let mut l = CaptureLoop::new(&args(&["--output", "1"]), 0);
    l.on_sent(SendOutcome::Sent);
    let source = CaptureSource::Monitor { adapter_index: 0, output_index: 1 };
    assert_eq!(
        l.on_frame(CaptureFrame::GiveUp, 1, 3),
        FrameStep::Rebuild(StackRequest {
            source,
            backend: Backend::ForceWgc,
            fps: 60,
            bitrate_bps: 20_000_000,
        })
    );
    l.built(source, 77);
    assert_eq!((l.frame_count, l.next_due, l.need_idr_after_skip), (0, 77, false));
    assert!(l.force_idr(&mut sender()));
}

#[test]
fn switching_moves_to_the_new_source() {
    let mut l = CaptureLoop::new(&args(&[]), 0);
    l.on_sent(SendOutcome::Full);
    l.built(CaptureSource::Window { hwnd: 5 }, 10);
    assert_eq!(l.source, CaptureSource::Window { hwnd: 5 });
    assert!(!l.need_idr_after_skip);
    assert_eq!(l.frame_count, 0);
    assert_eq!(l.bitrate_bps, 20_000_000);
}

#[test]
fn a_failed_switch_goes_on_and_a_failed_fallback_ends() {
    let mut l = CaptureLoop::new(&args(&["--output", "1"]), 0);
    l.on_sent(SendOutcome::Sent);
    let before = l;
    let source = CaptureSource::Monitor { adapter_index: 0, output_index: 1 };
    assert!(matches!(l.begin(false, Some(CaptureSource::Window { hwnd: 5 })), Begin::Switch(_)));
    assert_eq!(l.build_failed(Attempted::Switch), AfterFailure::Keep { source });
    assert_eq!(l, before);
    assert_eq!(l.build_failed(Attempted::Fallback), AfterFailure::End);
}

#[test]
fn nothing_happens_while_no_frame_comes() {
    let mut l = CaptureLoop::new(&args(&[]), 0);
    let before = l;
    assert_eq!(l.on_frame(CaptureFrame::Timeout, SEC, 3), FrameStep::Idle);
    assert_eq!(l.on_frame(CaptureFrame::Recovered, SEC, 3), FrameStep::Idle);
    assert_eq!(l, before);
}

#[test]
fn first_frames_and_keyframes_are_noteworthy() {
    let mut l = CaptureLoop::new(&args(&[]), 0);
    for _ in 0..3 {
        assert!(l.on_encoded(10, false));
        l.on_sent(SendOutcome::Sent);
    }
    assert!(!l.on_encoded(10, false));
    assert!(l.on_encoded(10, true));
}

#[test]
fn reports_sum_up_a_second() {
    let mut l = CaptureLoop::new(&args(&[]), 0);
    for len in [500, 100, 900] {
        l.on_encoded(len, false);
        l.on_sent(SendOutcome::Sent);
    }
    assert_eq!(l.tick(SEC - 1, 20_000_000), None);
    let report = l.tick(SEC + SEC / 2, 14_000_000).unwrap();
    assert_eq!(report.rate, FrameRate { frames: 3, nanos: SEC + SEC / 2 });
    assert_eq!((report.bytes_min, report.bytes_max, report.bytes_sum), (100, 900, 1500));
    assert_eq!(report.reconfigure, Some(14_000_000));
    l.finish_tick(Some(14_000_000), 2 * SEC);
    assert_eq!(l.bitrate_bps, 14_000_000);
    assert_eq!(l.tick(3 * SEC - 1, 14_000_000), None);
    let quiet = l.tick(3 * SEC, 14_000_000).unwrap();
    assert_eq!((quiet.bytes_min, quiet.bytes_max, quiet.bytes_sum), (0, 0, 0));
    assert_eq!(quiet.reconfigure, None);
}

#[test]
fn a_bitrate_that_could_not_be_set_is_tried_again() {
    let mut l = CaptureLoop::new(&args(&[]), 0);
    assert_eq!(l.tick(SEC, 9_000_000).unwrap().reconfigure, Some(9_000_000));
    l.finish_tick(None, SEC);
    assert_eq!(l.bitrate_bps, 20_000_000);
    assert_eq!(l.tick(2 * SEC, 9_000_000).unwrap().reconfigure, Some(9_000_000));
}
