//! What WebRTC connections are set up with: the STUN server, and the one
//! codec that the encoder produces.
use vstd::prelude::*;

use crate::text::join;

verus! {

/// A server for ICE candidate gathering.
pub struct IceServer {
    pub urls: Vec<String>,
    pub username: String,
    pub credential: String,
}

/// The URL of a STUN server given as `host:port`.
pub open spec fn stun_address(stun_server: Seq<char>) -> Seq<char> {
    "stun:"@ + stun_server
}

/// Builds the STUN-only ICE server list, shared by the host's own peer
/// connections and distributed to browsers.
///
/// No TURN: a viewer that can't be reached via P2P (symmetric NAT, strict
/// firewall) simply fails to connect instead of relaying media through a
/// server.
pub fn build_ice_servers(stun_server: &str) -> (servers: Vec<IceServer>)
    ensures
        servers@.len() == 1,
        servers@[0].urls@.len() == 1,
        servers@[0].urls@[0]@ == stun_address(stun_server@),
        servers@[0].username@ == Seq::<char>::empty(),
        servers@[0].credential@ == Seq::<char>::empty(),
{
    let mut urls: Vec<String> = Vec::new();
    urls.push(join("stun:", stun_server));
    let mut servers: Vec<IceServer> = Vec::new();
    servers.push(IceServer { urls, username: String::new(), credential: String::new() });
    servers
}

/// One kind of RTCP feedback that a codec uses.
pub struct RtcpFeedback {
    pub typ: String,
    pub parameter: String,
}

/// A codec as registered for negotiation.
pub struct CodecParameters {
    pub mime_type: String,
    pub clock_rate: u32,
    pub channels: u16,
    pub sdp_fmtp_line: String,
    pub rtcp_feedback: Vec<RtcpFeedback>,
    pub payload_type: u8,
}

/// The MIME type of H.264 video.
pub const MIME_TYPE_H264: &'static str = "video/H264";

/// The RTP clock rate of video.
pub const VIDEO_CLOCK_RATE: u32 = 90000;

/// The format parameters of the stream: High Profile (0x64), Level 3.1.
/// `level-asymmetry-allowed=1` lets the negotiated level differ from the
/// actual stream.
pub const H264_HIGH_FMTP: &'static str =
    "level-asymmetry-allowed=1;packetization-mode=1;profile-level-id=64001f";

/// The payload type that the codec is registered under.
pub const H264_PAYLOAD_TYPE: u8 = 125;

/// The ID of the video track.
pub const TRACK_ID: &'static str = "video";

/// The ID of the stream that the video track belongs to.
pub const STREAM_ID: &'static str = "framewire";

/// What a list of feedback kinds says.
pub open spec fn feedback_views(feedback: Seq<RtcpFeedback>) -> Seq<(Seq<char>, Seq<char>)> {
    feedback.map_values(|f: RtcpFeedback| (f.typ@, f.parameter@))
}

fn feedback(typ: &str, parameter: &str) -> (f: RtcpFeedback)
    ensures
        f.typ@ == typ@,
        f.parameter@ == parameter@,
{
    RtcpFeedback { typ: typ.to_owned(), parameter: parameter.to_owned() }
}

/// The only codec that is offered: H.264 High Profile, matching what the
/// encoder actually outputs.
pub fn h264_high_codec() -> (codec: CodecParameters)
    ensures
        codec.mime_type@ == MIME_TYPE_H264@,
        codec.clock_rate == VIDEO_CLOCK_RATE,
        codec.channels == 0,
        codec.sdp_fmtp_line@ == H264_HIGH_FMTP@,
        feedback_views(codec.rtcp_feedback@) == seq![
            ("goog-remb"@, ""@),
            ("transport-cc"@, ""@),
            ("ccm"@, "fir"@),
            ("nack"@, ""@),
            ("nack"@, "pli"@),
        ],
        codec.payload_type == H264_PAYLOAD_TYPE,
{
    let mut rtcp_feedback: Vec<RtcpFeedback> = Vec::new();
    rtcp_feedback.push(feedback("goog-remb", ""));
    rtcp_feedback.push(feedback("transport-cc", ""));
    rtcp_feedback.push(feedback("ccm", "fir"));
    rtcp_feedback.push(feedback("nack", ""));
    rtcp_feedback.push(feedback("nack", "pli"));
    assert(feedback_views(rtcp_feedback@) =~= seq![
        ("goog-remb"@, ""@),
        ("transport-cc"@, ""@),
        ("ccm"@, "fir"@),
        ("nack"@, ""@),
        ("nack"@, "pli"@),
    ]);
    CodecParameters {
        mime_type: MIME_TYPE_H264.to_owned(),
        clock_rate: VIDEO_CLOCK_RATE,
        channels: 0,
        sdp_fmtp_line: H264_HIGH_FMTP.to_owned(),
        rtcp_feedback,
        payload_type: H264_PAYLOAD_TYPE,
    }
}

/// The one server for candidate gathering is the STUN server, asked without
/// any credentials; there is no relay.
pub proof fn law_stun_server_alone(stun_server: &str, servers: Vec<IceServer>)
    requires
        call_ensures(build_ice_servers, (stun_server,), servers),
    ensures
        servers@.len() == 1 && servers@[0].urls@.len() == 1,
        servers@[0].urls@[0]@.take(5) == "stun:"@,
        servers@[0].urls@[0]@.skip(5) == stun_server@,
        servers@[0].username@.len() == 0 && servers@[0].credential@.len() == 0,
{
    reveal_strlit("stun:");
    assert(servers@[0].urls@[0]@.take(5) =~= "stun:"@);
    assert(servers@[0].urls@[0]@.skip(5) =~= stun_server@);
}

/// The codec that is offered is H.264 with a 90 kHz clock and no audio
/// channels, and viewers may ask for keyframes both ways.
pub proof fn law_codec(codec: CodecParameters)
    requires
        call_ensures(h264_high_codec, (), codec),
    ensures
        codec.mime_type@ == "video/H264"@,
        codec.clock_rate == 90 * 1000,
        codec.channels == 0,
        codec.payload_type == 125,
        codec.sdp_fmtp_line@
            == "level-asymmetry-allowed=1;packetization-mode=1;profile-level-id=64001f"@,
        exists|i: int|
            0 <= i < codec.rtcp_feedback@.len() && (#[trigger] codec.rtcp_feedback@[i]).typ@
                == "nack"@ && codec.rtcp_feedback@[i].parameter@ == "pli"@,
        exists|i: int|
            0 <= i < codec.rtcp_feedback@.len() && (#[trigger] codec.rtcp_feedback@[i]).typ@
                == "ccm"@ && codec.rtcp_feedback@[i].parameter@ == "fir"@,
{
    let seen = feedback_views(codec.rtcp_feedback@);
    assert(seen.len() == codec.rtcp_feedback@.len());
    assert(forall|i: int|
        0 <= i < seen.len() ==> #[trigger] seen[i] == (
            codec.rtcp_feedback@[i].typ@,
            codec.rtcp_feedback@[i].parameter@,
        ));
    assert(seen[4] == ("nack"@, "pli"@));
    assert(seen[2] == ("ccm"@, "fir"@));
    assert(codec.rtcp_feedback@[4].typ@ == "nack"@);
    assert(codec.rtcp_feedback@[2].typ@ == "ccm"@);
}

} // verus!
