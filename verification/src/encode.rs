//! How the hardware encoder is driven: what it is set up with, and which
//! calls encoding one frame takes.
//!
//! The color-converted NV12 texture is registered once and mapped for every
//! frame, with no copy through the CPU; only the compressed bitstream is
//! read back.
use vstd::prelude::*;

verus! {

// ---------------------------------------------------------------------
// Settings
// ---------------------------------------------------------------------

/// H.264 profiles.
#[derive(Debug, Clone, Copy, PartialEq, Eq, Structural)]
pub enum Profile {
    Baseline,
    Main,
    High,
}

/// How the encoder keeps to its bitrate.
#[derive(Debug, Clone, Copy, PartialEq, Eq, Structural)]
pub enum RateControl {
    /// Constant quantization parameters.
    ConstQp,
    /// Variable bitrate.
    Vbr,
    /// Constant bitrate.
    Cbr,
}

/// What the encoder's configuration changes of the low-latency preset.
#[derive(Debug, Clone, Copy, PartialEq, Eq, Structural)]
pub struct EncodeConfig {
    pub profile: Profile,
    pub rate_control: RateControl,
    /// 1: no B-frames.
    pub frame_interval_p: i32,
    /// Frames between periodic keyframes.
    pub gop_length: u32,
    pub average_bit_rate: u32,
    pub max_bit_rate: u32,
    /// Resend SPS/PPS with every keyframe so viewers joining mid-stream can
    /// decode immediately.
    pub repeat_sps_pps: bool,
}

/// What the encoder is initialized with.
#[derive(Debug, Clone, Copy, PartialEq, Eq, Structural)]
pub struct InitParams {
    pub encode_width: u32,
    pub encode_height: u32,
    pub dar_width: u32,
    pub dar_height: u32,
    pub frame_rate_num: u32,
    pub frame_rate_den: u32,
    pub enable_ptd: bool,
    pub max_encode_width: u32,
    pub max_encode_height: u32,
    pub config: EncodeConfig,
}

/// What one frame is encoded with.
#[derive(Debug, Clone, Copy, PartialEq, Eq, Structural)]
pub struct PictureParams {
    pub input_width: u32,
    pub input_height: u32,
    pub input_pitch: u32,
    pub force_idr: bool,
    pub frame_idx: u32,
}

/// The configuration for a stream: High profile, at a constant bitrate, with
/// a keyframe once per second (new viewers also get one on demand).
pub open spec fn config_for(fps: u32, bitrate_bps: u32) -> EncodeConfig {
    EncodeConfig {
        profile: Profile::High,
        rate_control: RateControl::Cbr,
        frame_interval_p: 1,
        gop_length: fps,
        average_bit_rate: bitrate_bps,
        max_bit_rate: bitrate_bps,
        repeat_sps_pps: true,
    }
}

/// The initialization for a stream.
pub open spec fn init_for(width: u32, height: u32, fps: u32, config: EncodeConfig) -> InitParams {
    InitParams {
        encode_width: width,
        encode_height: height,
        dar_width: width,
        dar_height: height,
        frame_rate_num: fps,
        frame_rate_den: 1,
        enable_ptd: true,
        max_encode_width: width,
        max_encode_height: height,
        config,
    }
}

// ---------------------------------------------------------------------
// Calls
// ---------------------------------------------------------------------

/// The calls that set the encoder up, in order.
#[derive(Debug, Clone, Copy, PartialEq, Eq, Structural)]
pub enum SetupCall {
    OpenSession,
    GetPresetConfig,
    Initialize,
    /// The texture is registered once, never again per frame.
    RegisterTexture,
    CreateBitstreamBuffer,
}

/// The calls that encode a frame.
#[derive(Debug, Clone, Copy, PartialEq, Eq, Structural)]
pub enum EncodeCall {
    MapInput,
    EncodePicture,
    /// `encoded` says whether the picture was encoded.
    UnmapInput { encoded: bool },
    LockBitstream,
    ReadBitstream,
    UnlockBitstream,
}

/// A call that failed for good.
#[derive(Debug, Clone, Copy, PartialEq, Eq, Structural)]
pub enum EncodeFault {
    Setup(SetupCall),
    MapInput,
    EncodePicture,
    LockBitstream,
    UnlockBitstream,
    Reconfigure,
}

impl EncodeFault {
    /// What to tell the user.
    pub open spec fn text(self) -> Seq<char> {
        match self {
            EncodeFault::Setup(
                SetupCall::OpenSession,
            ) => "NvEncOpenEncodeSessionEx に失敗（DirectXデバイス）"@,
            EncodeFault::Setup(
                SetupCall::GetPresetConfig,
            ) => "NvEncGetEncodePresetConfigEx に失敗"@,
            EncodeFault::Setup(SetupCall::Initialize) => "NvEncInitializeEncoder に失敗"@,
            EncodeFault::Setup(SetupCall::RegisterTexture) => "NvEncRegisterResource に失敗"@,
            EncodeFault::Setup(
                SetupCall::CreateBitstreamBuffer,
            ) => "NvEncCreateBitstreamBuffer に失敗"@,
            EncodeFault::MapInput => "NvEncMapInputResource に失敗"@,
            EncodeFault::EncodePicture => "NvEncEncodePicture に失敗"@,
            EncodeFault::LockBitstream => "NvEncLockBitstream に失敗"@,
            EncodeFault::UnlockBitstream => "NvEncUnlockBitstream に失敗"@,
            EncodeFault::Reconfigure => "NvEncReconfigureEncoder に失敗"@,
        }
    }

    /// What to tell the user.
    pub fn message(&self) -> (text: &'static str)
        ensures
            text@ == self.text(),
    {
        match self {
            EncodeFault::Setup(call) => match call {
                SetupCall::OpenSession => "NvEncOpenEncodeSessionEx に失敗（DirectXデバイス）",
                SetupCall::GetPresetConfig => "NvEncGetEncodePresetConfigEx に失敗",
                SetupCall::Initialize => "NvEncInitializeEncoder に失敗",
                SetupCall::RegisterTexture => "NvEncRegisterResource に失敗",
                SetupCall::CreateBitstreamBuffer => "NvEncCreateBitstreamBuffer に失敗",
            },
            EncodeFault::MapInput => "NvEncMapInputResource に失敗",
            EncodeFault::EncodePicture => "NvEncEncodePicture に失敗",
            EncodeFault::LockBitstream => "NvEncLockBitstream に失敗",
            EncodeFault::UnlockBitstream => "NvEncUnlockBitstream に失敗",
            EncodeFault::Reconfigure => "NvEncReconfigureEncoder に失敗",
        }
    }
}

/// What to do after a call that sets the encoder up.
#[derive(Debug, Clone, Copy, PartialEq, Eq, Structural)]
pub enum SetupStep {
    Call(SetupCall),
    Done,
    Fail(EncodeFault),
}

/// What to do after a call that encodes a frame.
#[derive(Debug, Clone, Copy, PartialEq, Eq, Structural)]
pub enum EncodeStep {
    Call(EncodeCall),
    Done,
    Fail(EncodeFault),
}

/// What comes after a call that sets the encoder up.
pub open spec fn setup_after(call: SetupCall, ok: bool) -> SetupStep {
    if !ok {
        SetupStep::Fail(EncodeFault::Setup(call))
    } else {
        match call {
            SetupCall::OpenSession => SetupStep::Call(SetupCall::GetPresetConfig),
            SetupCall::GetPresetConfig => SetupStep::Call(SetupCall::Initialize),
            SetupCall::Initialize => SetupStep::Call(SetupCall::RegisterTexture),
            SetupCall::RegisterTexture => SetupStep::Call(SetupCall::CreateBitstreamBuffer),
            SetupCall::CreateBitstreamBuffer => SetupStep::Done,
        }
    }
}

/// What comes after a call that encodes a frame. The input is unmapped right
/// after the encode call, whether or not that succeeded.
pub open spec fn encode_after(call: EncodeCall, ok: bool) -> EncodeStep {
    match call {
        EncodeCall::MapInput => if ok {
            EncodeStep::Call(EncodeCall::EncodePicture)
        } else {
            EncodeStep::Fail(EncodeFault::MapInput)
        },
        EncodeCall::EncodePicture => EncodeStep::Call(EncodeCall::UnmapInput { encoded: ok }),
        EncodeCall::UnmapInput { encoded } => if encoded {
            EncodeStep::Call(EncodeCall::LockBitstream)
        } else {
            EncodeStep::Fail(EncodeFault::EncodePicture)
        },
        EncodeCall::LockBitstream => if ok {
            EncodeStep::Call(EncodeCall::ReadBitstream)
        } else {
            EncodeStep::Fail(EncodeFault::LockBitstream)
        },
        EncodeCall::ReadBitstream => EncodeStep::Call(EncodeCall::UnlockBitstream),
        EncodeCall::UnlockBitstream => if ok {
            EncodeStep::Done
        } else {
            EncodeStep::Fail(EncodeFault::UnlockBitstream)
        },
    }
}

/// What to do after a call that sets the encoder up.
pub fn after_setup_call(call: SetupCall, ok: bool) -> (step: SetupStep)
    ensures
        step == setup_after(call, ok),
{
    if !ok {
        return SetupStep::Fail(EncodeFault::Setup(call));
    }
    match call {
        SetupCall::OpenSession => SetupStep::Call(SetupCall::GetPresetConfig),
        SetupCall::GetPresetConfig => SetupStep::Call(SetupCall::Initialize),
        SetupCall::Initialize => SetupStep::Call(SetupCall::RegisterTexture),
        SetupCall::RegisterTexture => SetupStep::Call(SetupCall::CreateBitstreamBuffer),
        SetupCall::CreateBitstreamBuffer => SetupStep::Done,
    }
}

// ---------------------------------------------------------------------
// The encoder
// ---------------------------------------------------------------------

/// What is known of an encoder that has been set up.
#[derive(Debug, Clone, Copy, PartialEq, Eq, Structural)]
pub struct NvencEncoder {
    pub width: u32,
    pub height: u32,
    pub fps: u32,
    /// The index of the next frame.
    pub frame_idx: u32,
    pub config: EncodeConfig,
}

/// The encoder after a call that encodes a frame: a picture that was encoded
/// uses up its index.
pub open spec fn counted(encoder: NvencEncoder, call: EncodeCall) -> NvencEncoder {
    if call == (EncodeCall::UnmapInput { encoded: true }) {
        NvencEncoder { frame_idx: (encoder.frame_idx + 1) as u32, ..encoder }
    } else {
        encoder
    }
}

/// What the next frame is encoded with.
pub open spec fn picture_for(encoder: NvencEncoder, force_idr: bool) -> PictureParams {
    PictureParams {
        input_width: encoder.width,
        input_height: encoder.height,
        input_pitch: encoder.width,
        force_idr,
        frame_idx: encoder.frame_idx,
    }
}

impl NvencEncoder {
    /// An encoder for frames of the given size.
    pub fn new(width: u32, height: u32, fps: u32, bitrate_bps: u32) -> (encoder: Self)
        ensures
            encoder == (NvencEncoder {
                width,
                height,
                fps,
                frame_idx: 0,
                config: config_for(fps, bitrate_bps),
            }),
    {
        NvencEncoder {
            width,
            height,
            fps,
            frame_idx: 0,
            config: EncodeConfig {
                profile: Profile::High,
                rate_control: RateControl::Cbr,
                frame_interval_p: 1,
                gop_length: fps,
                average_bit_rate: bitrate_bps,
                max_bit_rate: bitrate_bps,
                repeat_sps_pps: true,
            },
        }
    }

    /// What the encoder is initialized with.
    pub fn init_params(&self) -> (params: InitParams)
        ensures
            params == init_for(self.width, self.height, self.fps, self.config),
    {
        InitParams {
            encode_width: self.width,
            encode_height: self.height,
            dar_width: self.width,
            dar_height: self.height,
            frame_rate_num: self.fps,
            frame_rate_den: 1,
            enable_ptd: true,
            max_encode_width: self.width,
            max_encode_height: self.height,
            config: self.config,
        }
    }

    /// Changes the target bitrate at runtime (bandwidth adaptation). The
    /// encoder takes a full initialization for that: one with the same
    /// values, only the bitrate changed.
    pub fn reconfigure_bitrate(&mut self, bitrate_bps: u32) -> (params: InitParams)
        ensures
            *final(self) == (NvencEncoder {
                config: EncodeConfig {
                    average_bit_rate: bitrate_bps,
                    max_bit_rate: bitrate_bps,
                    ..old(self).config
                },
                ..*old(self)
            }),
            params == init_for(
                old(self).width,
                old(self).height,
                old(self).fps,
                final(self).config,
            ),
    {
        self.config.average_bit_rate = bitrate_bps;
        self.config.max_bit_rate = bitrate_bps;
        self.init_params()
    }

    /// What the next frame is encoded with.
    pub fn encode_frame(&self, force_idr: bool) -> (params: PictureParams)
        ensures
            params == picture_for(*self, force_idr),
    {
        PictureParams {
            input_width: self.width,
            input_height: self.height,
            input_pitch: self.width,
            force_idr,
            frame_idx: self.frame_idx,
        }
    }

    /// What to do after a call that encodes a frame. The frame counts once
    /// it is encoded and unmapped.
    pub fn after_call(&mut self, call: EncodeCall, ok: bool) -> (step: EncodeStep)
        requires
            call == (EncodeCall::UnmapInput { encoded: true }) ==> old(self).frame_idx < u32::MAX,
        ensures
            step == encode_after(call, ok),
            *final(self) == counted(*old(self), call),
    {
        match call {
            EncodeCall::MapInput => {
                if ok {
                    EncodeStep::Call(EncodeCall::EncodePicture)
                } else {
                    EncodeStep::Fail(EncodeFault::MapInput)
                }
            },
            EncodeCall::EncodePicture => EncodeStep::Call(EncodeCall::UnmapInput { encoded: ok }),
            EncodeCall::UnmapInput { encoded } => {
                if encoded {
                    self.frame_idx = self.frame_idx + 1;
                    EncodeStep::Call(EncodeCall::LockBitstream)
                } else {
                    EncodeStep::Fail(EncodeFault::EncodePicture)
                }
            },
            EncodeCall::LockBitstream => {
                if ok {
                    EncodeStep::Call(EncodeCall::ReadBitstream)
                } else {
                    EncodeStep::Fail(EncodeFault::LockBitstream)
                }
            },
            EncodeCall::ReadBitstream => EncodeStep::Call(EncodeCall::UnlockBitstream),
            EncodeCall::UnlockBitstream => {
                if ok {
                    EncodeStep::Done
                } else {
                    EncodeStep::Fail(EncodeFault::UnlockBitstream)
                }
            },
        }
    }
}

// ---------------------------------------------------------------------
// Laws
// ---------------------------------------------------------------------

/// What is left of encoding a frame once `call` has been made, if the calls
/// from there on go as `oks` says.
pub open spec fn calls_after(call: EncodeCall, oks: Seq<bool>) -> Seq<EncodeCall>
    decreases oks.len(),
{
    if oks.len() == 0 {
        seq![call]
    } else {
        match encode_after(call, oks[0]) {
            EncodeStep::Call(next) => seq![call] + calls_after(next, oks.skip(1)),
            _ => seq![call],
        }
    }
}

/// However the calls go, an input that was mapped is unmapped right after
/// the encode call, and a bitstream that was locked is unlocked right after
/// it was read.
pub proof fn law_what_is_taken_is_given_back(encode_ok: bool, read_ok: bool)
    ensures
        encode_after(EncodeCall::MapInput, true) == EncodeStep::Call(EncodeCall::EncodePicture),
        encode_after(EncodeCall::EncodePicture, encode_ok) == EncodeStep::Call(
            EncodeCall::UnmapInput { encoded: encode_ok },
        ),
        encode_after(EncodeCall::LockBitstream, true) == EncodeStep::Call(
            EncodeCall::ReadBitstream,
        ),
        encode_after(EncodeCall::ReadBitstream, read_ok) == EncodeStep::Call(
            EncodeCall::UnlockBitstream,
        ),
{
}

/// Encoding a frame takes at most six calls.
pub proof fn law_encoding_ends(oks: Seq<bool>)
    ensures
        calls_after(EncodeCall::MapInput, oks).len() <= 6,
{
    reveal_with_fuel(calls_after, 7);
}

/// The encoder after a run of calls.
pub open spec fn after_calls(encoder: NvencEncoder, calls: Seq<EncodeCall>) -> NvencEncoder
    decreases calls.len(),
{
    if calls.len() == 0 {
        encoder
    } else {
        counted(after_calls(encoder, calls.drop_last()), calls.last())
    }
}

/// How many pictures were encoded in a run of calls.
pub open spec fn pictures(calls: Seq<EncodeCall>) -> nat
    decreases calls.len(),
{
    if calls.len() == 0 {
        0
    } else if calls.last() == (EncodeCall::UnmapInput { encoded: true }) {
        pictures(calls.drop_last()) + 1
    } else {
        pictures(calls.drop_last())
    }
}

/// After any run of calls, the next picture's index has gone up by the number
/// of pictures that were encoded, and nothing else has changed. So in a new
/// encoder the index is that number.
pub proof fn law_index_counts_the_pictures(
    encoder: NvencEncoder,
    calls: Seq<EncodeCall>,
    force_idr: bool,
)
    requires
        encoder.frame_idx + pictures(calls) <= u32::MAX,
    ensures
        after_calls(encoder, calls) == (NvencEncoder {
            frame_idx: (encoder.frame_idx + pictures(calls)) as u32,
            ..encoder
        }),
        picture_for(after_calls(encoder, calls), force_idr).frame_idx == encoder.frame_idx
            + pictures(calls),
        picture_for(after_calls(encoder, calls), force_idr).force_idr == force_idr,
    decreases calls.len(),
{
    if calls.len() > 0 {
        law_index_counts_the_pictures(encoder, calls.drop_last(), force_idr);
    }
}

/// Encoding a frame uses up one index if the input could be mapped and the
/// picture encoded, and none otherwise.
pub proof fn law_failed_picture_uses_no_index(oks: Seq<bool>)
    requires
        oks.len() >= 6,
    ensures
        pictures(calls_after(EncodeCall::MapInput, oks)) == if oks[0] && oks[1] {
            1nat
        } else {
            0nat
        },
{
    reveal_with_fuel(calls_after, 7);
    reveal_with_fuel(pictures, 7);
    let calls = calls_after(EncodeCall::MapInput, oks);
    if !oks[0] {
        assert(calls =~= seq![EncodeCall::MapInput]);
    } else if !oks[1] {
        assert(calls =~= seq![
            EncodeCall::MapInput,
            EncodeCall::EncodePicture,
            EncodeCall::UnmapInput { encoded: false },
        ]);
    } else {
        let head = seq![
            EncodeCall::MapInput,
            EncodeCall::EncodePicture,
            EncodeCall::UnmapInput { encoded: true },
        ];
        if !oks[3] {
            assert(calls =~= head.push(EncodeCall::LockBitstream));
            assert(calls.drop_last() =~= head);
        } else {
            let locked = head.push(EncodeCall::LockBitstream);
            let read = locked.push(EncodeCall::ReadBitstream);
            assert(calls =~= read.push(EncodeCall::UnlockBitstream));
            assert(calls.drop_last() =~= read);
            assert(read.drop_last() =~= locked);
            assert(locked.drop_last() =~= head);
        }
        assert(head.drop_last() =~= seq![EncodeCall::MapInput, EncodeCall::EncodePicture]);
    }
}

/// Reconfiguring changes the bitrate and nothing else: the encoder is then
/// set to what it would have been initialized with at that bitrate.
pub proof fn law_reconfiguring_changes_the_bitrate_alone(
    width: u32,
    height: u32,
    fps: u32,
    before_bps: u32,
    after_bps: u32,
)
    ensures
        init_for(
            width,
            height,
            fps,
            EncodeConfig {
                average_bit_rate: after_bps,
                max_bit_rate: after_bps,
                ..config_for(fps, before_bps)
            },
        ) == init_for(width, height, fps, config_for(fps, after_bps)),
{
}

/// The encoder is told the size, frame rate and bitrate that it was made
/// for: as many frames per second as it is fed, a keyframe once per second, a
/// constant bitrate, and no frame held back for reordering.
pub proof fn law_encoder_is_told_what_it_was_made_for(
    width: u32,
    height: u32,
    fps: u32,
    bitrate_bps: u32,
    encoder: NvencEncoder,
    params: InitParams,
)
    requires
        call_ensures(NvencEncoder::new, (width, height, fps, bitrate_bps), encoder),
        call_ensures(NvencEncoder::init_params, (&encoder,), params),
    ensures
        params.encode_width == width && params.encode_height == height,
        params.max_encode_width == width && params.max_encode_height == height,
        params.dar_width * height == params.dar_height * width,
        params.dar_width == width,
        params.frame_rate_num == fps * params.frame_rate_den,
        params.frame_rate_den == 1,
        params.config.gop_length * params.frame_rate_den == params.frame_rate_num,
        params.config.average_bit_rate == bitrate_bps,
        params.config.max_bit_rate == params.config.average_bit_rate,
        params.config.rate_control is Cbr,
        params.config.profile is High,
        params.config.frame_interval_p == 1,
        params.config.repeat_sps_pps,
        params.enable_ptd,
        encoder.frame_idx == 0,
{
    assert(width * height == height * width) by (nonlinear_arith);
}

/// At whatever bitrate an encoder is, and however many frames it has encoded,
/// setting another one tells it the size and the frame rate that it was told
/// first, and the new bitrate; and the index of the next frame stays.
pub proof fn law_reconfiguring_keeps_size_and_frame_rate(
    encoder: &mut NvencEncoder,
    bitrate_bps: u32,
    before: InitParams,
    params: InitParams,
)
    requires
        call_ensures(NvencEncoder::init_params, (old(encoder),), before),
        call_ensures(NvencEncoder::reconfigure_bitrate, (encoder, bitrate_bps), params),
    ensures
        params.encode_width == before.encode_width && params.encode_height == before.encode_height,
        params.max_encode_width == before.max_encode_width,
        params.max_encode_height == before.max_encode_height,
        params.dar_width == before.dar_width && params.dar_height == before.dar_height,
        params.frame_rate_num == before.frame_rate_num,
        params.frame_rate_num == old(encoder).fps * params.frame_rate_den,
        params.frame_rate_den == 1,
        params.enable_ptd == before.enable_ptd,
        params.config.gop_length == before.config.gop_length,
        params.config.rate_control == before.config.rate_control,
        params.config.profile == before.config.profile,
        params.config.frame_interval_p == before.config.frame_interval_p,
        params.config.repeat_sps_pps == before.config.repeat_sps_pps,
        params.config.average_bit_rate == bitrate_bps,
        params.config.max_bit_rate == bitrate_bps,
        final(encoder).config == params.config,
        final(encoder).width == old(encoder).width && final(encoder).height == old(encoder).height,
        final(encoder).fps == old(encoder).fps,
        final(encoder).frame_idx == old(encoder).frame_idx,
{
}

/// A frame is encoded at the encoder's size, as a keyframe exactly if one is
/// asked for, and under the next index. The pitch of the texture, one byte of
/// brightness per pixel, is its width.
pub proof fn law_frame_is_encoded_as_asked(
    encoder: NvencEncoder,
    init: InitParams,
    force_idr: bool,
    picture: PictureParams,
)
    requires
        call_ensures(NvencEncoder::init_params, (&encoder,), init),
        call_ensures(NvencEncoder::encode_frame, (&encoder, force_idr), picture),
    ensures
        picture.input_width == init.encode_width,
        picture.input_height == init.encode_height,
        picture.input_pitch == init.encode_width,
        picture.force_idr == force_idr,
        picture.frame_idx == encoder.frame_idx,
{
}

/// After a call that went well comes the next one, until the bitstream is
/// unlocked; after one that failed comes an error that names it, but not
/// before what was mapped is unmapped. Only a picture that was encoded uses
/// up an index.
pub proof fn law_calls_follow_each_other(
    encoder: &mut NvencEncoder,
    call: EncodeCall,
    ok: bool,
    step: EncodeStep,
)
    requires
        call_ensures(NvencEncoder::after_call, (encoder, call, ok), step),
        call == (EncodeCall::UnmapInput { encoded: true }) ==> old(encoder).frame_idx < u32::MAX,
    ensures
        step is Done <==> call is UnlockBitstream && ok,
        step == EncodeStep::Call(EncodeCall::EncodePicture) <==> call is MapInput && ok,
        step == EncodeStep::Call(EncodeCall::UnmapInput { encoded: ok }) <==> call is EncodePicture,
        step == EncodeStep::Call(EncodeCall::LockBitstream) <==> call == (EncodeCall::UnmapInput {
            encoded: true,
        }),
        step == EncodeStep::Call(EncodeCall::ReadBitstream) <==> call is LockBitstream && ok,
        step == EncodeStep::Call(EncodeCall::UnlockBitstream) <==> call is ReadBitstream,
        step == EncodeStep::Fail(EncodeFault::MapInput) <==> call is MapInput && !ok,
        step == EncodeStep::Fail(EncodeFault::EncodePicture) <==> call == (EncodeCall::UnmapInput {
            encoded: false,
        }),
        step == EncodeStep::Fail(EncodeFault::LockBitstream) <==> call is LockBitstream && !ok,
        step == EncodeStep::Fail(EncodeFault::UnlockBitstream) <==> call is UnlockBitstream && !ok,
        final(encoder).frame_idx - old(encoder).frame_idx == if call == (EncodeCall::UnmapInput {
            encoded: true,
        }) {
            1int
        } else {
            0
        },
        final(encoder).width == old(encoder).width && final(encoder).height == old(encoder).height,
        final(encoder).fps == old(encoder).fps && final(encoder).config == old(encoder).config,
{
}

/// Where each call that sets the encoder up stands: a session, before the
/// preset can be asked for; both, before it is initialized; and only then the
/// texture and the buffer.
pub open spec fn setup_rank(call: SetupCall) -> int {
    match call {
        SetupCall::OpenSession => 0,
        SetupCall::GetPresetConfig => 1,
        SetupCall::Initialize => 2,
        SetupCall::RegisterTexture => 3,
        SetupCall::CreateBitstreamBuffer => 4,
    }
}

/// Setting the encoder up makes all five calls in order, and stops at the
/// first that fails with an error that names it.
pub proof fn law_setup_makes_every_call(call: SetupCall, ok: bool, step: SetupStep)
    requires
        call_ensures(after_setup_call, (call, ok), step),
    ensures
        !ok ==> step == SetupStep::Fail(EncodeFault::Setup(call)),
        ok && setup_rank(call) < 4 ==> step is Call && setup_rank(step->Call_0) == setup_rank(call)
            + 1,
        ok && setup_rank(call) == 4 ==> step is Done,
{
}

// ---------------------------------------------------------------------
// Color conversion
// ---------------------------------------------------------------------

/// Pixels that one thread group of the color-conversion shader covers in
/// each direction.
pub const GROUP_SIZE: u32 = 8;

/// How many thread groups it takes to cover `pixels` in one direction.
pub fn group_count(pixels: u32) -> (groups: u32)
    ensures
        (groups - 1) * GROUP_SIZE < pixels <= groups * GROUP_SIZE,
{
    pixels / GROUP_SIZE + if pixels % GROUP_SIZE > 0 {
        1
    } else {
        0
    }
}

/// The groups cover every pixel, and none of them is left without one.
pub proof fn law_groups_cover_the_image(pixels: u32, groups: u32)
    requires
        call_ensures(group_count, (pixels,), groups),
    ensures
        8 * groups >= pixels,
        8 * groups < pixels + 8,
{
}

/// The messages tell the calls apart: different faults have different ones.
pub proof fn law_messages_tell_faults_apart(
    a: EncodeFault,
    first: &'static str,
    b: EncodeFault,
    second: &'static str,
)
    requires
        call_ensures(EncodeFault::message, (&a,), first),
        call_ensures(EncodeFault::message, (&b,), second),
    ensures
        first@ == second@ <==> a == b,
{
    reveal_strlit("NvEncOpenEncodeSessionEx に失敗（DirectXデバイス）");
    reveal_strlit("NvEncGetEncodePresetConfigEx に失敗");
    reveal_strlit("NvEncInitializeEncoder に失敗");
    reveal_strlit("NvEncRegisterResource に失敗");
    reveal_strlit("NvEncCreateBitstreamBuffer に失敗");
    reveal_strlit("NvEncMapInputResource に失敗");
    reveal_strlit("NvEncEncodePicture に失敗");
    reveal_strlit("NvEncLockBitstream に失敗");
    reveal_strlit("NvEncUnlockBitstream に失敗");
    reveal_strlit("NvEncReconfigureEncoder に失敗");
    assert("NvEncOpenEncodeSessionEx に失敗（DirectXデバイス）"@.len() == 41);
    assert("NvEncGetEncodePresetConfigEx に失敗"@.len() == 32);
    assert("NvEncInitializeEncoder に失敗"@.len() == 26);
    assert("NvEncCreateBitstreamBuffer に失敗"@.len() == 30);
    assert("NvEncReconfigureEncoder に失敗"@.len() == 27);
    assert("NvEncUnlockBitstream に失敗"@.len() == 24);
    assert("NvEncRegisterResource に失敗"@[5] == 'R');
    assert("NvEncMapInputResource に失敗"@[5] == 'M');
    assert("NvEncEncodePicture に失敗"@[5] == 'E');
    assert("NvEncLockBitstream に失敗"@[5] == 'L');
}

} // verus!
