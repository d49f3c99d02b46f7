use framewire::encode::{
    after_setup_call, group_count, EncodeCall, EncodeConfig, EncodeFault, EncodeStep, NvencEncoder,
    Profile, RateControl, SetupCall, SetupStep,
};

#[test]
fn encoder_is_set_up_for_low_latency() {
    let e = NvencEncoder::new(1920, 1080, 60, 20_000_000);
    let p = e.init_params();
    assert_eq!((p.encode_width, p.encode_height), (1920, 1080));
    assert_eq!((p.dar_width, p.dar_height), (1920, 1080));
    assert_eq!((p.max_encode_width, p.max_encode_height), (1920, 1080));
    assert_eq!((p.frame_rate_num, p.frame_rate_den), (60, 1));
    assert!(p.enable_ptd);
    assert_eq!(
        p.config,
        EncodeConfig {
            profile: Profile::High,
            rate_control: RateControl::Cbr,
            frame_interval_p: 1,
            gop_length: 60,
            average_bit_rate: 20_000_000,
            max_bit_rate: 20_000_000,
            repeat_sps_pps: true,
        }
    );
}

#[test]
fn reconfiguring_is_like_starting_at_the_new_bitrate() {
    let mut e = NvencEncoder::new(1280, 720, 30, 20_000_000);
    let params = e.reconfigure_bitrate(5_000_000);
    assert_eq!(params, NvencEncoder::new(1280, 720, 30, 5_000_000).init_params());
    assert_eq!(e, NvencEncoder::new(1280, 720, 30, 5_000_000));
}

#[test]
fn setting_up_takes_five_calls() {
    let mut calls = vec![SetupCall::OpenSession];
    while let SetupStep::Call(next) = after_setup_call(calls[calls.len() - 1], true) {
        calls.push(next);
    }
    assert_eq!(
        calls,
        vec![
            SetupCall::OpenSession,
            SetupCall::GetPresetConfig,
            SetupCall::Initialize,
            SetupCall::RegisterTexture,
            SetupCall::CreateBitstreamBuffer,
        ]
    );
    assert_eq!(after_setup_call(SetupCall::CreateBitstreamBuffer, true), SetupStep::Done);
    for call in calls {
        assert_eq!(after_setup_call(call, false), SetupStep::Fail(EncodeFault::Setup(call)));
    }
}

fn run(e: &mut NvencEncoder, failing: Option<EncodeCall>) -> (Vec<EncodeCall>, EncodeStep) {
    let mut call = EncodeCall::MapInput;
    let mut calls = vec![call];
    loop {
        match e.after_call(call, failing != Some(call)) {
            EncodeStep::Call(next) => {
                call = next;
                calls.push(call);
            }
            end => return (calls, end),
        }
    }
}

#[test]
fn encoding_maps_encodes_and_reads_back() {
    let mut e = NvencEncoder::new(64, 32, 60, 1_000_000);
    let p = e.encode_frame(true);
    assert_eq!((p.input_width, p.input_height, p.input_pitch), (64, 32, 64));
    assert!(p.force_idr);
    assert_eq!(p.frame_idx, 0);
    let (calls, end) = run(&mut e, None);
    assert_eq!(
        calls,
        vec![
            EncodeCall::MapInput,
            EncodeCall::EncodePicture,
            EncodeCall::UnmapInput { encoded: true },
            EncodeCall::LockBitstream,
            EncodeCall::ReadBitstream,
            EncodeCall::UnlockBitstream,
        ]
    );
    assert_eq!(end, EncodeStep::Done);
    assert_eq!(e.encode_frame(false).frame_idx, 1);
    assert!(!e.encode_frame(false).force_idr);
}

#[test]
fn a_picture_that_fails_is_still_unmapped() {
    let mut e = NvencEncoder::new(64, 32, 60, 1_000_000);
    let (calls, end) = run(&mut e, Some(EncodeCall::EncodePicture));
    assert_eq!(calls[2], EncodeCall::UnmapInput { encoded: false });
    assert_eq!(calls.len(), 3);
    assert_eq!(end, EncodeStep::Fail(EncodeFault::EncodePicture));
    assert_eq!(e.frame_idx, 0);
}

#[test]
fn other_encode_faults() {
    let mut e = NvencEncoder::new(64, 32, 60, 1_000_000);
    assert_eq!(run(&mut e, Some(EncodeCall::MapInput)).1, EncodeStep::Fail(EncodeFault::MapInput));
    assert_eq!(e.frame_idx, 0);
    assert_eq!(
        run(&mut e, Some(EncodeCall::LockBitstream)).1,
        EncodeStep::Fail(EncodeFault::LockBitstream)
    );
    assert_eq!(
        run(&mut e, Some(EncodeCall::UnlockBitstream)).1,
        EncodeStep::Fail(EncodeFault::UnlockBitstream)
    );
    assert_eq!(
        run(&mut e, Some(EncodeCall::UnmapInput { encoded: true })).1,
        EncodeStep::Done
    );
    assert_eq!(e.frame_idx, 3);
}

#[test]
fn faults_name_the_call() {
    let setup = EncodeFault::Setup(SetupCall::OpenSession);
    assert_eq!(setup.message(), "NvEncOpenEncodeSessionEx に失敗（DirectXデバイス）");
    assert_eq!(EncodeFault::EncodePicture.message(), "NvEncEncodePicture に失敗");
    assert_eq!(EncodeFault::Reconfigure.message(), "NvEncReconfigureEncoder に失敗");
}

#[test]
fn groups_cover_the_image() {
    assert_eq!(group_count(1920), 240);
    assert_eq!(group_count(1081), 136);
    assert_eq!(group_count(1), 1);
    assert_eq!(group_count(0), 0);
    assert_eq!(group_count(u32::MAX), u32::MAX.div_ceil(8));
}

#[test]
fn the_index_counts_the_pictures() {
    let mut e = NvencEncoder::new(64, 32, 60, 1_000_000);
    let failing = [
        None,
        Some(EncodeCall::MapInput),
        None,
        Some(EncodeCall::EncodePicture),
        Some(EncodeCall::EncodePicture),
        Some(EncodeCall::LockBitstream),
        None,
    ];
    let mut pictures = 0;
    for fault in failing {
        assert_eq!(e.encode_frame(false).frame_idx, pictures);
        let (calls, _) = run(&mut e, fault);
        if calls.contains(&EncodeCall::UnmapInput { encoded: true }) {
            pictures += 1;
        }
        assert_eq!(e.frame_idx, pictures);
    }
    assert_eq!(pictures, 4);
}
