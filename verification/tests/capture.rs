use framewire::capture::{
    is_capturable, list_targets, list_windows, until_nul, window_target, AdapterInfo, Backend,
    CaptureSource, WindowFacts, WindowInfo, WS_EX_APPWINDOW, WS_EX_TOOLWINDOW,
};
use framewire::capture_session::{
    after_open_failed, check_size, monitor_size, poll_step, resized_message, start_capture,
    window_size, Acquired, CaptureStep, DxgiState, DxgiStep, WgcStep,
};

fn wide(text: &str, len: usize) -> Vec<u16> {
    let mut units: Vec<u16> = text.encode_utf16().collect();
    units.resize(len, 0);
    units
}

#[test]
fn names_end_at_the_first_zero() {
    assert_eq!(until_nul(&vec![65, 66, 0, 67]), vec![65, 66]);
    assert_eq!(until_nul(&vec![65, 66]), vec![65, 66]);
    assert_eq!(until_nul(&vec![0]), Vec::<u16>::new());
}

#[test]
fn monitors_are_listed_by_adapter_and_output() {
    let adapters = vec![
        AdapterInfo {
            description: wide("GeForce", 128),
            outputs: vec![wide("\\\\.\\DISPLAY1", 32), wide("\\\\.\\DISPLAY2", 32)],
        },
        AdapterInfo { description: wide("Basic", 128), outputs: vec![] },
        AdapterInfo { description: wide("モニタ", 128), outputs: vec![wide("D3", 32)] },
    ];
    let listed: Vec<(u32, String, u32, String)> = list_targets(&adapters)
        .into_iter()
        .map(|t| (t.adapter_index, t.adapter_name, t.output_index, t.output_name))
        .collect();
    assert_eq!(
        listed,
        vec![
            (0, "GeForce".to_string(), 0, "\\\\.\\DISPLAY1".to_string()),
            (0, "GeForce".to_string(), 1, "\\\\.\\DISPLAY2".to_string()),
            (2, "モニタ".to_string(), 0, "D3".to_string()),
        ]
    );
    assert!(list_targets(&vec![]).is_empty());
}

fn ordinary() -> WindowFacts {
    WindowFacts {
        visible: true,
        minimized: false,
        cloaked: Some(0),
        is_shell: false,
        has_owner: false,
        ex_style: 0,
        title_len: 5,
    }
}

#[test]
fn application_windows_are_listed() {
    assert!(is_capturable(&ordinary()));
    assert!(is_capturable(&WindowFacts { cloaked: None, ..ordinary() }));
    assert!(!is_capturable(&WindowFacts { visible: false, ..ordinary() }));
    assert!(!is_capturable(&WindowFacts { minimized: true, ..ordinary() }));
    assert!(!is_capturable(&WindowFacts { cloaked: Some(2), ..ordinary() }));
    assert!(!is_capturable(&WindowFacts { is_shell: true, ..ordinary() }));
    assert!(!is_capturable(&WindowFacts { title_len: 0, ..ordinary() }));
    assert!(!is_capturable(&WindowFacts { ex_style: WS_EX_TOOLWINDOW, ..ordinary() }));
    assert!(!is_capturable(&WindowFacts { has_owner: true, ..ordinary() }));
    assert!(is_capturable(&WindowFacts {
        ex_style: WS_EX_TOOLWINDOW | WS_EX_APPWINDOW,
        ..ordinary()
    }));
    assert!(!is_capturable(&WindowFacts {
        has_owner: true,
        ex_style: WS_EX_APPWINDOW,
        ..ordinary()
    }));
}

#[test]
fn window_titles_are_read_from_the_buffer() {
    let target = window_target(77, &wide("Game ゲーム", 20), 8).unwrap();
    assert_eq!(target.hwnd, 77);
    assert_eq!(target.title, "Game ゲーム");
    assert!(window_target(77, &wide("", 4), 0).is_none());
    let lone = window_target(1, &vec![0xd800, 65], 2).unwrap();
    assert_eq!(lone.title, "\u{fffd}A");
}

#[test]
fn windows_are_listed_in_order() {
    let info = |hwnd: isize, facts: WindowFacts, title: &str| WindowInfo {
        hwnd,
        facts,
        title: title.encode_utf16().collect(),
    };
    let windows = vec![
        info(1, ordinary(), "Game"),
        info(2, WindowFacts { minimized: true, ..ordinary() }, "Hidden"),
        info(3, ordinary(), ""),
        info(4, ordinary(), "Browser"),
    ];
    let listed: Vec<(isize, String)> =
        list_windows(&windows).into_iter().map(|w| (w.hwnd, w.title)).collect();
    assert_eq!(listed, vec![(1, "Game".to_string()), (4, "Browser".to_string())]);
    assert!(list_windows(&vec![]).is_empty());
}

#[test]
fn capture_apis() {
    let window = CaptureSource::Window { hwnd: 1 };
    let monitor = CaptureSource::Monitor { adapter_index: 1, output_index: 2 };
    let dxgi = CaptureStep::OpenMonitorDxgi { adapter_index: 1, output_index: 2 };
    let wgc = CaptureStep::OpenMonitorWgc { adapter_index: 1, output_index: 2 };
    assert_eq!(start_capture(window, Backend::Auto), CaptureStep::OpenWindow { hwnd: 1 });
    assert_eq!(start_capture(window, Backend::ForceWgc), CaptureStep::OpenWindow { hwnd: 1 });
    assert_eq!(start_capture(window, Backend::ForceDxgi), CaptureStep::RefuseWindowOverDxgi);
    assert_eq!(start_capture(monitor, Backend::Auto), dxgi);
    assert_eq!(start_capture(monitor, Backend::ForceDxgi), dxgi);
    assert_eq!(start_capture(monitor, Backend::ForceWgc), wgc);
    assert_eq!(after_open_failed(dxgi, Backend::Auto), Some(wgc));
    assert_eq!(after_open_failed(dxgi, Backend::ForceDxgi), None);
    assert_eq!(after_open_failed(wgc, Backend::Auto), None);
    assert_eq!(after_open_failed(CaptureStep::OpenWindow { hwnd: 1 }, Backend::Auto), None);
}

#[test]
fn sizes_of_monitors_and_windows() {
    assert_eq!(monitor_size(-1920, 0, 0, 1080), (1920, 1080));
    assert_eq!(monitor_size(10, 0, 9, 1), (u32::MAX, 1));
    assert_eq!(window_size(800, 600), Some((800, 600)));
    assert_eq!(window_size(0, 600), None);
    assert_eq!(window_size(800, -1), None);
}

#[test]
fn repeated_loss_gives_up() {
    let mut state = DxgiState::new();
    for i in 1..=200 {
        let pause_ms = if i > 5 { 50 } else { 0 };
        assert_eq!(state.next_frame(Acquired::AccessLost), DxgiStep::Recreate { pause_ms });
    }
    assert_eq!(state.next_frame(Acquired::AccessLost), DxgiStep::GiveUp);
}

#[test]
fn waiting_between_losses_forgets_none_of_them() {
    let mut state = DxgiState::new();
    for i in 1..=200 {
        let pause_ms = if i > 5 { 50 } else { 0 };
        assert_eq!(state.next_frame(Acquired::AccessLost), DxgiStep::Recreate { pause_ms });
        for _ in 0..i % 3 {
            assert_eq!(state.next_frame(Acquired::WaitTimeout), DxgiStep::NoFrame);
        }
    }
    assert_eq!(state.next_frame(Acquired::WaitTimeout), DxgiStep::NoFrame);
    assert_eq!(state.next_frame(Acquired::AccessLost), DxgiStep::GiveUp);
}

#[test]
fn a_frame_forgets_earlier_losses() {
    let mut state = DxgiState::new();
    for _ in 0..200 {
        state.next_frame(Acquired::AccessLost);
    }
    let frame = Acquired::Frame { presented: true, resource: true };
    assert_eq!(state.next_frame(frame), DxgiStep::CopyFrame { log_format: true });
    assert_eq!(state.consecutive_access_lost, 0);
    assert_eq!(state.next_frame(frame), DxgiStep::CopyFrame { log_format: false });
    assert_eq!(state.next_frame(Acquired::AccessLost), DxgiStep::Recreate { pause_ms: 0 });
    let pointer_only = Acquired::Frame { presented: false, resource: true };
    assert_eq!(state.next_frame(pointer_only), DxgiStep::ReleaseOnly);
    assert_eq!(state.next_frame(Acquired::WaitTimeout), DxgiStep::NoFrame);
    assert_eq!(state.next_frame(Acquired::Failed), DxgiStep::Fail);
}

#[test]
fn window_capture_polls_until_the_deadline() {
    assert_eq!(poll_step(8, 6, None, 9, 10), WgcStep::PollAgain);
    assert_eq!(poll_step(8, 6, None, 10, 10), WgcStep::Timeout);
    assert_eq!(poll_step(8, 6, Some((Some((8, 6)), true)), 99, 10), WgcStep::Frame);
    assert_eq!(poll_step(8, 6, Some((None, true)), 0, 10), WgcStep::Frame);
    assert_eq!(poll_step(8, 6, Some((Some((8, 6)), false)), 0, 10), WgcStep::PollAgain);
    assert_eq!(poll_step(8, 6, Some((Some((8, 6)), false)), 10, 10), WgcStep::Timeout);
    assert_eq!(poll_step(8, 6, Some((Some((9, 6)), true)), 0, 10), WgcStep::Resized);
    assert!(check_size(8, 6, Some((8, 7))));
    assert!(!check_size(8, 6, None));
    assert!(check_size(8, 6, Some((-8, 6))));
}

#[test]
fn resizing_is_explained() {
    assert_eq!(
        resized_message(800, 600, 1024, 768),
        "キャプチャ対象のサイズが800x600から1024x768に変わりました。一度配信を停止し、再度開始してください。"
    );
}
