use framewire::config::Config;
use framewire::messages::{answer_from_host, answer_of, offer_of, parse_answer, parse_offer};
use framewire::roomcode::{generate, generate_viewer_id, spell, ALPHABET, VIEWER_ID_ALPHABET};
use framewire::rooms::RoomStore;
use framewire::signaling::{HostConnect, Signaling, ViewerConnect};

const SEC: u128 = 1_000_000_000;

fn config(min_version: Option<&str>, token: Option<&str>) -> Config {
    Config::from_env(None, None, min_version.map(str::to_string), token.map(str::to_string))
}

fn member(text: &str, key: &str) -> Option<String> {
    let value: serde_json::Value = serde_json::from_str(text).unwrap();
    value.get(key).and_then(|v| v.as_str()).map(str::to_string)
}

fn connect_host(server: &mut Signaling<&'static str>, code: Option<&str>, n: u64) -> String {
    match server.connect_host(code, None, None, n, "host") {
        HostConnect::Connected { room_code, welcome } => {
            assert_eq!(member(&welcome, "type").unwrap(), "room_created");
            assert_eq!(member(&welcome, "room_code").unwrap(), room_code);
            room_code
        }
        _ => panic!("host turned away"),
    }
}

fn connect_viewer(server: &mut Signaling<&'static str>, code: &str, channel: &'static str) -> (String, u64) {
    match server.connect_viewer(code, channel, 0) {
        ViewerConnect::Connected { viewer_id, connection } => (viewer_id, connection),
        ViewerConnect::Rejected { reply } => panic!("viewer turned away: {reply}"),
    }
}

fn rejection(outcome: HostConnect<&'static str>) -> String {
    match outcome {
        HostConnect::Rejected { reply } => reply,
        _ => panic!("host not turned away"),
    }
}

#[test]
fn configuration_defaults() {
    let c = Config::from_env(None, None, None, None);
    assert_eq!(c.bind_addr, "0.0.0.0:8090");
    assert_eq!(c.stun_server, "stun.l.google.com:19302");
    assert_eq!(c.min_host_version, None);
    assert_eq!(c.host_token, None);
    let c = Config::from_env(Some("[::]:1".to_string()), Some("s:2".to_string()), None, None);
    assert_eq!((c.bind_addr.as_str(), c.stun_server.as_str()), ("[::]:1", "s:2"));
}

#[test]
fn offer_and_answer_are_exchanged() {
    let mut server: Signaling<&'static str> = Signaling::new(config(None, None));
    let code = connect_host(&mut server, None, 1);
    let (viewer, _) = connect_viewer(&mut server, &code, "viewer");
    let offer = "{\"type\":\"offer\",\"sdp\":\"line 1\\r\\n\\\"quoted\\\" \u{30d3}\"}";
    let delivery = server.handle_viewer_message(&code, &viewer, offer).unwrap();
    assert_eq!(*delivery.to, "host");
    assert_eq!(member(&delivery.text, "type").unwrap(), "offer");
    assert_eq!(member(&delivery.text, "viewer_id").unwrap(), viewer);
    assert_eq!(member(&delivery.text, "sdp").unwrap(), "line 1\r\n\"quoted\" \u{30d3}");
    let answer = answer_from_host(&viewer, "the answer");
    let delivery = server.handle_host_message(&code, &answer).unwrap();
    assert_eq!(*delivery.to, "viewer");
    assert_eq!(delivery.text, "{\"sdp\":\"the answer\",\"type\":\"answer\"}");
}

#[test]
fn answers_reach_only_the_viewer_they_name() {
    let mut server: Signaling<&'static str> = Signaling::new(config(None, None));
    let code = connect_host(&mut server, None, 1);
    let other = connect_host(&mut server, None, 2);
    let (a, _) = connect_viewer(&mut server, &code, "a");
    let (b, _) = connect_viewer(&mut server, &code, "b");
    assert_eq!(*server.handle_host_message(&code, &answer_from_host(&a, "s")).unwrap().to, "a");
    assert_eq!(*server.handle_host_message(&code, &answer_from_host(&b, "s")).unwrap().to, "b");
    assert!(server.handle_host_message(&other, &answer_from_host(&a, "s")).is_none());
    assert!(server.handle_host_message(&code, &answer_from_host("nobody", "s")).is_none());
}

#[test]
fn other_messages_go_nowhere() {
    let mut server: Signaling<&'static str> = Signaling::new(config(None, None));
    let code = connect_host(&mut server, None, 1);
    let (viewer, _) = connect_viewer(&mut server, &code, "viewer");
    for text in [
        "", "not json", "[]", "\"offer\"", "{}", "{\"type\":\"offer\"}",
        "{\"type\":\"offer\",\"sdp\":7}", "{\"type\":\"answer\",\"sdp\":\"x\"}",
        "{\"sdp\":\"x\"}",
    ] {
        assert!(server.handle_viewer_message(&code, &viewer, text).is_none(), "{text}");
        assert!(server.handle_host_message(&code, text).is_none(), "{text}");
    }
    assert!(server.handle_viewer_message("NOROOM", &viewer, "{\"type\":\"offer\",\"sdp\":\"x\"}").is_none());
}

#[test]
fn hosts_need_the_token_if_there_is_one() {
    let mut server: Signaling<&'static str> = Signaling::new(config(None, Some("secret")));
    for token in [None, Some("wrong"), Some("")] {
        let reply = rejection(server.connect_host(None, None, token, 1, "host"));
        assert_eq!(reply, "{\"type\":\"unauthorized\"}");
    }
    let outcome = server.connect_host(None, None, Some("secret"), 1, "host");
    assert!(matches!(outcome, HostConnect::Connected { .. }));
}

#[test]
fn old_hosts_are_rejected() {
    let mut server: Signaling<&'static str> = Signaling::new(config(Some("0.2.0"), None));
    for version in [None, Some("0.1.9"), Some("junk")] {
        let reply = rejection(server.connect_host(None, version, None, 1, "host"));
        assert_eq!(member(&reply, "type").unwrap(), "version_rejected");
        assert_eq!(member(&reply, "min_version").unwrap(), "0.2.0");
    }
    for version in ["0.2", "0.2.0", "0.10.0", "1"] {
        let outcome = server.connect_host(None, Some(version), None, 1, "host");
        assert!(matches!(outcome, HostConnect::Connected { .. }));
    }
}

#[test]
fn token_comes_before_version() {
    let mut server: Signaling<&'static str> = Signaling::new(config(Some("9"), Some("secret")));
    let reply = rejection(server.connect_host(None, None, None, 1, "host"));
    assert_eq!(member(&reply, "type").unwrap(), "unauthorized");
}

#[test]
fn reconnecting_host_keeps_its_code() {
    let mut server: Signaling<&'static str> = Signaling::new(config(None, None));
    let code = connect_host(&mut server, None, 1);
    server.disconnect_host(&code);
    assert_eq!(connect_host(&mut server, Some(&code), 2), code);
    let second = connect_host(&mut server, Some(&code), 3);
    assert_ne!(second, code);
    assert_eq!(connect_host(&mut server, Some("my room"), 4), "my room");
}

#[test]
fn leaving_viewers_are_announced_to_their_host_only() {
    let mut server: Signaling<&'static str> = Signaling::new(config(None, None));
    let code = connect_host(&mut server, None, 1);
    let (viewer, connection) = connect_viewer(&mut server, &code, "viewer");
    assert_eq!(connection, 1);
    {
        let delivery = server.disconnect_viewer(&code, connection, &viewer).unwrap();
        assert_eq!(*delivery.to, "host");
        assert_eq!(member(&delivery.text, "type").unwrap(), "viewer_left");
        assert_eq!(member(&delivery.text, "viewer_id").unwrap(), viewer);
    }
    assert!(server.handle_host_message(&code, &answer_from_host(&viewer, "s")).is_none());
    let (late, connection) = connect_viewer(&mut server, &code, "late");
    server.disconnect_host(&code);
    connect_host(&mut server, Some(&code), 2);
    assert!(server.disconnect_viewer(&code, connection, &late).is_none());
}

#[test]
fn wrong_codes_are_throttled() {
    let mut server: Signaling<&'static str> = Signaling::new(config(None, None));
    let code = connect_host(&mut server, None, 1);
    for i in 0..20u128 {
        match server.connect_viewer("WRONG2", "viewer", i * SEC) {
            ViewerConnect::Rejected { reply } => {
                assert_eq!(member(&reply, "type").unwrap(), "error");
                assert_eq!(
                    member(&reply, "message").unwrap(),
                    "Stream not found (wrong code, or the stream hasn't started yet)"
                );
            }
            _ => panic!("wrong code let in"),
        }
    }
    match server.connect_viewer(&code, "viewer", 20 * SEC) {
        ViewerConnect::Rejected { reply } => assert_eq!(
            member(&reply, "message").unwrap(),
            "Too many attempts, try again later"
        ),
        _ => panic!("not throttled"),
    }
    let outcome = server.connect_viewer(&code, "viewer", 61 * SEC);
    assert!(matches!(outcome, ViewerConnect::Connected { .. }));
}

#[test]
fn written_answers_read_back() {
    let text = answer_from_host("v1", "a\"b\\c\n\u{1f600}");
    assert_eq!(parse_answer(&text), Some(("v1".to_string(), "a\"b\\c\n\u{1f600}".to_string())));
    assert_eq!(parse_offer(&text), None);
    assert_eq!(parse_offer("{\"sdp\":\"s\",\"extra\":[1],\"type\":\"offer\"}"), Some("s".to_string()));
}

#[test]
fn messages_are_told_apart_by_their_type() {
    let text = |t: &str| Some(t.to_string());
    assert_eq!(
        answer_of(text("answer"), text("v"), text("s")),
        Some(("v".to_string(), "s".to_string()))
    );
    assert_eq!(answer_of(text("offer"), text("v"), text("s")), None);
    assert_eq!(answer_of(None, text("v"), text("s")), None);
    assert_eq!(answer_of(text("answer"), None, text("s")), None);
    assert_eq!(answer_of(text("answer"), text("v"), None), None);
    assert_eq!(offer_of(text("offer"), text("s")), text("s"));
    assert_eq!(offer_of(text("answer"), text("s")), None);
    assert_eq!(offer_of(text("offer"), None), None);
}

#[test]
fn codes_are_readable() {
    assert!(ALPHABET.chars().all(|c| !"01OIL".contains(c)));
    let mut seen = std::collections::HashSet::new();
    for _ in 0..200 {
        let code = generate();
        assert_eq!(code.len(), 6);
        assert!(code.chars().all(|c| ALPHABET.contains(c)));
        seen.insert(code);
        let id = generate_viewer_id();
        assert_eq!(id.len(), 10);
        assert!(id.chars().all(|c| VIEWER_ID_ALPHABET.contains(c)));
    }
    assert!(seen.len() > 190);
}

#[test]
fn draws_spell_characters() {
    assert_eq!(spell(ALPHABET, &vec![0, 1, 30, 8, 22]), "AB9JZ");
    assert_eq!(spell(ALPHABET, &vec![]), "");
}

#[test]
fn a_host_with_the_servers_token_is_let_in() {
    let mut server: Signaling<&'static str> = Signaling::new(config(None, Some("secret")));
    let token = framewire::transport::presented_token("secret");
    let outcome = server.connect_host(None, None, token, 1, "host");
    assert!(matches!(outcome, HostConnect::Connected { .. }));
    let other = framewire::transport::presented_token("guess");
    let outcome = server.connect_host(None, None, other, 2, "host");
    assert!(matches!(outcome, HostConnect::Rejected { .. }));
}

#[test]
fn a_drawn_code_is_taken_if_it_is_free() {
    let mut rooms: RoomStore<&'static str> = RoomStore::new();
    let drawn = |code: &str| code.to_string();
    assert_eq!(rooms.register_drawn(None, drawn("ABC234"), 1, "a"), Ok("ABC234".to_string()));
    assert_eq!(rooms.register_drawn(None, drawn("ABC234"), 2, "b"), Err("b"));
    assert_eq!(rooms.get("ABC234").unwrap().connection(), 1);
    assert_eq!(rooms.register_drawn(Some("ABC234"), drawn("XYZ789"), 3, "c"), Ok("XYZ789".to_string()));
    assert_eq!(rooms.register_drawn(Some("ABC234"), drawn("XYZ789"), 4, "d"), Err("d"));
    assert_eq!(rooms.register_drawn(Some("MINE22"), drawn("ABC234"), 5, "e"), Ok("MINE22".to_string()));
    let room = rooms.get("MINE22").unwrap();
    assert_eq!(*room.notify_host("hi".to_string()).to, "e");
    assert!(room.send_to_viewer("v", "hi".to_string()).is_none());
}

#[test]
fn every_host_gets_a_room_of_its_own() {
    let mut rooms: RoomStore<u64> = RoomStore::new();
    let mut codes = Vec::new();
    for n in 0..300u64 {
        let code = rooms.register_host(codes.first().map(String::as_str), n, n).unwrap();
        assert!(!codes.contains(&code));
        codes.push(code);
    }
    for (n, code) in codes.iter().enumerate() {
        assert_eq!(rooms.get(code).unwrap().connection(), n as u64);
    }
    rooms.remove_room(&codes[7]);
    assert_eq!(rooms.register_host(Some(&codes[7]), 7, 7), Ok(codes[7].clone()));
}
