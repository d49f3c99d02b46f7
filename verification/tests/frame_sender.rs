use framewire::frame_sender::{FrameSender, RtcpPacket};
use framewire::media::{build_ice_servers, h264_high_codec};
use framewire::upnp::PortForward;

fn sender(bitrate: u32) -> FrameSender<&'static str> {
    FrameSender::new(build_ice_servers("stun.example:3478"), bitrate, None)
}

fn report(lost: u8) -> RtcpPacket {
    RtcpPacket::ReceiverReport { fractions_lost: vec![lost] }
}

#[test]
fn every_viewer_gets_every_frame_once() {
    let mut s = sender(20_000_000);
    let data = vec![1u8, 2, 3];
    assert_eq!(s.send(&data, 5).len(), 0);
    s.viewer_connected("a".to_string(), "track a");
    s.viewer_connected("b".to_string(), "track b");
    s.viewer_connected("a".to_string(), "new track a");
    let mut tracks: Vec<&str> = Vec::new();
    for t in s.send(&data, 16_666_667) {
        assert_eq!(t.data, &data);
        assert_eq!(t.duration_nanos, 16_666_667);
        tracks.push(*t.track);
    }
    tracks.sort();
    assert_eq!(tracks, vec!["new track a", "track b"]);
    s.remove_viewer("b");
    assert_eq!(s.send(&data, 1).len(), 1);
}

#[test]
fn joining_viewer_gets_one_keyframe() {
    let mut s = sender(20_000_000);
    assert!(!s.take_force_idr());
    s.viewer_connected("a".to_string(), "t");
    assert!(s.take_force_idr());
    assert!(!s.take_force_idr());
}

#[test]
fn lost_pictures_ask_for_a_keyframe() {
    let mut s = sender(20_000_000);
    let mut rate = s.new_viewer_rate();
    s.on_rtcp("a", &mut rate, &RtcpPacket::Other);
    assert!(!s.take_force_idr());
    s.on_rtcp("a", &mut rate, &RtcpPacket::PictureLossIndication);
    assert!(s.take_force_idr());
    s.on_rtcp("a", &mut rate, &RtcpPacket::FullIntraRequest);
    assert!(s.take_force_idr());
    s.on_rtcp("a", &mut rate, &report(255));
    assert!(!s.take_force_idr());
}

#[test]
fn target_follows_the_slowest_viewer() {
    let mut s = sender(20_000_000);
    let mut a = s.new_viewer_rate();
    let mut b = s.new_viewer_rate();
    assert_eq!(s.target_bitrate_bps(), 20_000_000);
    s.on_rtcp("a", &mut a, &report(26));
    assert_eq!(s.target_bitrate_bps(), 14_000_000);
    s.on_rtcp("b", &mut b, &report(6));
    assert_eq!(s.target_bitrate_bps(), 14_000_000);
    s.remove_viewer("a");
    assert_eq!(s.target_bitrate_bps(), 17_000_000);
    s.remove_viewer("b");
    assert_eq!(s.target_bitrate_bps(), 20_000_000);
}

#[test]
fn several_reports_in_one_packet_count_one_by_one() {
    let mut s = sender(20_000_000);
    let mut rate = s.new_viewer_rate();
    s.on_rtcp("a", &mut rate, &RtcpPacket::ReceiverReport { fractions_lost: vec![] });
    assert_eq!(s.target_bitrate_bps(), 20_000_000);
    s.on_rtcp("a", &mut rate, &RtcpPacket::ReceiverReport { fractions_lost: vec![26, 26, 0, 0, 0] });
    assert_eq!(s.target_bitrate_bps(), 10_290_000);
}

#[test]
fn clearing_starts_the_target_afresh() {
    let mut s = sender(20_000_000);
    let mut rate = s.new_viewer_rate();
    s.viewer_connected("direct".to_string(), "t");
    s.on_rtcp("direct", &mut rate, &report(26));
    assert_eq!(s.target_bitrate_bps(), 14_000_000);
    s.clear_viewers();
    assert_eq!(s.send(&vec![0], 1).len(), 0);
    assert_eq!(s.target_bitrate_bps(), 20_000_000);
    s.viewer_connected("direct".to_string(), "t2");
    assert_eq!(s.target_bitrate_bps(), 20_000_000);
    let mut fresh = s.new_viewer_rate();
    s.on_rtcp("direct", &mut fresh, &report(6));
    assert_eq!(s.target_bitrate_bps(), 17_000_000);
}

#[test]
fn router_address_is_shown_if_there_is_one() {
    let plain = sender(1);
    assert_eq!(plain.port_forward_ip(), None);
    assert!(plain.port_forward().is_none());
    let forward = PortForward { external_ip: "203.0.113.9".to_string(), port_min: 40000, port_max: 40001 };
    let mapped: FrameSender<u8> = FrameSender::new(Vec::new(), 1, Some(forward));
    assert_eq!(mapped.port_forward_ip(), Some("203.0.113.9".to_string()));
    assert_eq!(mapped.port_forward().unwrap().port_max, 40001);
}

#[test]
fn ice_servers_are_stun_only() {
    let servers = build_ice_servers("stun.l.google.com:19302");
    assert_eq!(servers.len(), 1);
    assert_eq!(servers[0].urls, vec!["stun:stun.l.google.com:19302".to_string()]);
    assert_eq!(servers[0].username, "");
    assert_eq!(servers[0].credential, "");
    assert_eq!(sender(1).ice_servers()[0].urls[0], "stun:stun.example:3478");
}

#[test]
fn only_h264_high_is_offered() {
    let codec = h264_high_codec();
    assert_eq!(codec.mime_type, "video/H264");
    assert_eq!(codec.mime_type, webrtc::api::media_engine::MIME_TYPE_H264);
    assert_eq!((codec.clock_rate, codec.channels, codec.payload_type), (90000, 0, 125));
    assert_eq!(
        codec.sdp_fmtp_line,
        "level-asymmetry-allowed=1;packetization-mode=1;profile-level-id=64001f"
    );
    let feedback: Vec<(&str, &str)> =
        codec.rtcp_feedback.iter().map(|f| (f.typ.as_str(), f.parameter.as_str())).collect();
    assert_eq!(
        feedback,
        vec![("goog-remb", ""), ("transport-cc", ""), ("ccm", "fir"), ("nack", ""), ("nack", "pli")]
    );
}
