use framewire::urls::{direct_url, host_signal_url, http_url_to_ws, watch_url};

#[test]
fn http_urls_become_websocket_urls() {
    assert_eq!(http_url_to_ws("https://framewire.hinodeent.com"), "wss://framewire.hinodeent.com");
    assert_eq!(http_url_to_ws("http://127.0.0.1:8090"), "ws://127.0.0.1:8090");
    assert_eq!(http_url_to_ws("wss://already"), "wss://already");
    assert_eq!(http_url_to_ws("HTTP://upper"), "HTTP://upper");
    assert_eq!(http_url_to_ws(""), "");
    assert_eq!(http_url_to_ws("https://"), "wss://");
}

#[test]
fn rewriting_twice_changes_nothing_more() {
    let once = http_url_to_ws("https://a/b?c=http://d");
    assert_eq!(once, "wss://a/b?c=http://d");
    assert_eq!(http_url_to_ws(&once), once);
}

#[test]
fn viewer_urls() {
    assert_eq!(watch_url("https://example.org", "ABC234"), "https://example.org/watch/ABC234");
    assert_eq!(direct_url("192.168.0.7", 8787), "http://192.168.0.7:8787/");
    assert_eq!(direct_url("h", 0), "http://h:0/");
}

#[test]
fn host_urls_ask_for_a_code_if_there_is_one() {
    assert_eq!(
        host_signal_url("wss://s", None, "0.3.1"),
        "wss://s/v1/host-signal?client_version=0.3.1"
    );
    assert_eq!(
        host_signal_url("wss://s", Some("ABC234"), "0.3.1"),
        "wss://s/v1/host-signal?room_code=ABC234&client_version=0.3.1"
    );
}
