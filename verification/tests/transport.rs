use framewire::frame_sender::FrameSender;
use framewire::transport::{
    ends_viewer, first_reply, handle_signal_message, network_plan, on_offer, presented_token, Attempt,
    FirstReply, HostInbound, PeerState, Reconnect, ReconnectStep, SignalAction, VersionRejected,
};
use framewire::upnp::PortForward;

const SDP: &str = "v=0\r\no=- 1 2 IN IP4 127.0.0.1\r\ns=-\r\nt=0 0\r\n";

fn sender() -> FrameSender<u8> {
    FrameSender::new(Vec::new(), 20_000_000, None)
}

#[test]
fn offers_are_read_and_carried_on() {
    let mut s = sender();
    let inbound = HostInbound::Offer { viewer_id: "v1".to_string(), sdp: SDP.to_string() };
    match handle_signal_message(&mut s, inbound) {
        SignalAction::Connect { viewer_id, offer } => {
            assert_eq!(viewer_id, "v1");
            assert_eq!(offer.sdp, SDP);
            assert_eq!(
                offer.sdp_type,
                webrtc::peer_connection::sdp::sdp_type::RTCSdpType::Offer
            );
        }
        _ => panic!("offer not taken"),
    }
}

#[test]
fn broken_offers_are_reported() {
    let mut s = sender();
    let inbound = HostInbound::Offer { viewer_id: "v2".to_string(), sdp: "nonsense".to_string() };
    match handle_signal_message(&mut s, inbound) {
        SignalAction::BadOffer { viewer_id, .. } => assert_eq!(viewer_id, "v2"),
        _ => panic!("broken offer taken"),
    }
    let failed = webrtc::peer_connection::sdp::session_description::RTCSessionDescription::offer(
        "x".to_string(),
    );
    assert!(matches!(on_offer("v3".to_string(), failed), SignalAction::BadOffer { .. }));
}

#[test]
fn viewers_that_left_are_taken_out() {
    let mut s = sender();
    s.viewer_connected("v1".to_string(), 1);
    s.viewer_connected("v2".to_string(), 2);
    let action = handle_signal_message(&mut s, HostInbound::ViewerLeft { viewer_id: "v1".to_string() });
    assert!(matches!(action, SignalAction::Nothing));
    let left: Vec<u8> = s.send(&vec![0], 1).iter().map(|t| *t.track).collect();
    assert_eq!(left, vec![2]);
}

#[test]
fn other_messages_change_nothing() {
    let mut s = sender();
    s.viewer_connected("v1".to_string(), 1);
    let room = HostInbound::RoomCreated { room_code: "ABC234".to_string() };
    assert!(matches!(handle_signal_message(&mut s, room), SignalAction::Nothing));
    let late = HostInbound::VersionRejected { min_version: "9.0".to_string() };
    match handle_signal_message(&mut s, late) {
        SignalAction::LateRejection { min_version } => assert_eq!(min_version, "9.0"),
        _ => panic!("late rejection passed over"),
    }
    assert_eq!(s.send(&vec![0], 1).len(), 1);
}

#[test]
fn first_reply_opens_a_room_or_fails() {
    match first_reply(HostInbound::RoomCreated { room_code: "ABC234".to_string() }) {
        FirstReply::Room { room_code } => assert_eq!(room_code, "ABC234"),
        _ => panic!("no room"),
    }
    match first_reply(HostInbound::VersionRejected { min_version: "0.2.0".to_string() }) {
        FirstReply::Rejected(r) => assert_eq!(r.min_version, "0.2.0"),
        _ => panic!("not rejected"),
    }
    let offer = HostInbound::Offer { viewer_id: "v".to_string(), sdp: SDP.to_string() };
    assert!(matches!(first_reply(offer), FirstReply::Unexpected));
    let left = HostInbound::ViewerLeft { viewer_id: "v".to_string() };
    assert!(matches!(first_reply(left), FirstReply::Unexpected));
}

#[test]
fn rejection_names_the_version_needed() {
    let rejected = VersionRejected { min_version: "0.2.0".to_string() };
    assert_eq!(
        rejected.message(),
        "このバージョンは古いためbackendに拒否されました（必要バージョン: 0.2.0以上）。新しいframewire.exeをダウンロードしてください。"
    );
}

#[test]
fn pauses_double_up_to_half_a_minute() {
    let mut r = Reconnect::new("ABC234".to_string());
    for secs in [2, 4, 8, 16, 30, 30, 30] {
        assert_eq!(r.on_attempt(&Attempt::Failed), ReconnectStep::Wait { secs });
        assert_eq!(r.room_code(), "ABC234");
    }
}

#[test]
fn success_starts_the_pauses_afresh() {
    let mut r = Reconnect::new("ABC234".to_string());
    r.on_attempt(&Attempt::Failed);
    r.on_attempt(&Attempt::Failed);
    let same = Attempt::Connected { confirmed_code: "ABC234".to_string() };
    assert_eq!(r.on_attempt(&same), ReconnectStep::Serve { code_changed: false });
    assert_eq!(r.on_attempt(&Attempt::Failed), ReconnectStep::Wait { secs: 2 });
    let other = Attempt::Connected { confirmed_code: "XYZ789".to_string() };
    assert_eq!(r.on_attempt(&other), ReconnectStep::Serve { code_changed: true });
    assert_eq!(r.room_code(), "ABC234");
}

#[test]
fn rejected_builds_stop_trying() {
    let mut r = Reconnect::new("ABC234".to_string());
    assert_eq!(r.on_attempt(&Attempt::VersionRejected), ReconnectStep::GiveUp);
}

#[test]
fn mapped_ports_are_used() {
    let forward = PortForward { external_ip: "203.0.113.9".to_string(), port_min: 40000, port_max: 40029 };
    let plan = network_plan(Some(&forward));
    let udp = plan.udp.unwrap();
    assert_eq!((udp.port_min(), udp.port_max()), (40000, 40029));
    assert_eq!(plan.nat_1to1_ips, vec!["203.0.113.9".to_string()]);
    let single = PortForward { external_ip: "1.1.1.1".to_string(), port_min: 7, port_max: 7 };
    assert!(network_plan(Some(&single)).udp.is_some());
}

#[test]
fn backward_ranges_leave_the_ports_open() {
    let forward = PortForward { external_ip: "203.0.113.9".to_string(), port_min: 9, port_max: 8 };
    let plan = network_plan(Some(&forward));
    assert!(plan.udp.is_none());
    assert_eq!(plan.nat_1to1_ips.len(), 1);
    let none = network_plan(None);
    assert!(none.udp.is_none() && none.nat_1to1_ips.is_empty());
}

#[test]
fn lost_connections_end_the_viewer() {
    for state in [PeerState::Disconnected, PeerState::Failed, PeerState::Closed] {
        assert!(ends_viewer(state));
    }
    for state in
        [PeerState::Unspecified, PeerState::New, PeerState::Connecting, PeerState::Connected]
    {
        assert!(!ends_viewer(state));
    }
}

#[test]
fn only_a_token_that_is_set_is_presented() {
    assert_eq!(presented_token("secret"), Some("secret"));
    assert_eq!(presented_token(""), None);
}
