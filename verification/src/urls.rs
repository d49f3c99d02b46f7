//! The URLs that hosts and viewers use.
use vstd::prelude::*;

use crate::decimal::{decimal, decimal_string};
use crate::text::{join, str_view, strip_prefix, stripped};

verus! {

/// The WebSocket URL for an HTTP base URL: `https` becomes `wss`, `http`
/// becomes `ws`, and anything else stays as it is.
pub open spec fn ws_url(http_base: Seq<char>) -> Seq<char> {
    match stripped(http_base, "https://"@) {
        Some(rest) => "wss://"@ + rest,
        None => match stripped(http_base, "http://"@) {
            Some(rest) => "ws://"@ + rest,
            None => http_base,
        },
    }
}

/// Rewrites the server's HTTP base URL into the WebSocket URL used for
/// signaling.
pub fn http_url_to_ws(http_base: &str) -> (url: String)
    ensures
        url@ == ws_url(http_base@),
{
    if let Some(rest) = strip_prefix(http_base, "https://") {
        join("wss://", rest.as_str())
    } else if let Some(rest) = strip_prefix(http_base, "http://") {
        join("ws://", rest.as_str())
    } else {
        http_base.to_owned()
    }
}

/// Where viewers watch a room: the page is served by the server, so the host
/// never needs an inbound port.
pub fn watch_url(backend_url: &str, room_code: &str) -> (url: String)
    ensures
        url@ == backend_url@ + "/watch/"@ + room_code@,
{
    join(backend_url, "/watch/").concat(room_code)
}

/// Where viewers watch a host that serves its own page.
pub fn direct_url(public_host: &str, port: u16) -> (url: String)
    ensures
        url@ == "http://"@ + public_host@ + ":"@ + decimal(port as nat) + "/"@,
{
    join("http://", public_host).concat(":").concat(decimal_string(port as u64).as_str()).concat(
        "/",
    )
}

/// The URL a host connects to for signaling: it reports its version, and
/// asks for a room code if it has one to reuse.
pub open spec fn host_signal_address(
    backend_ws_base: Seq<char>,
    requested_code: Option<Seq<char>>,
    version: Seq<char>,
) -> Seq<char> {
    match requested_code {
        Some(code) => backend_ws_base + "/v1/host-signal?room_code="@ + code + "&client_version="@
            + version,
        None => backend_ws_base + "/v1/host-signal?client_version="@ + version,
    }
}

/// The URL a host connects to for signaling.
pub fn host_signal_url(backend_ws_base: &str, requested_code: Option<&str>, version: &str) -> (url:
    String)
    ensures
        url@ == host_signal_address(
            backend_ws_base@,
            str_view(requested_code),
            version@,
        ),
{
    match requested_code {
        Some(code) => join(backend_ws_base, "/v1/host-signal?room_code=").concat(code).concat(
            "&client_version=",
        ).concat(version),
        None => join(backend_ws_base, "/v1/host-signal?client_version=").concat(version),
    }
}

/// Rewriting keeps everything behind the scheme, and a secure URL stays
/// secure.
pub proof fn law_rewriting_keeps_the_rest(rest: Seq<char>)
    ensures
        ws_url("https://"@ + rest) == "wss://"@ + rest,
        ws_url("http://"@ + rest) == "ws://"@ + rest,
        ws_url(ws_url("https://"@ + rest)) == ws_url("https://"@ + rest),
        ws_url(ws_url("http://"@ + rest)) == ws_url("http://"@ + rest),
{
    reveal_strlit("https://");
    reveal_strlit("http://");
    reveal_strlit("wss://");
    reveal_strlit("ws://");
    let s = "https://"@ + rest;
    assert("https://"@ =~= s.subrange(0, 8));
    assert(s.skip(8) =~= rest);
    let h = "http://"@ + rest;
    assert("http://"@ =~= h.subrange(0, 7));
    assert(h.skip(7) =~= rest);
    assert(!"https://"@.is_prefix_of(h)) by {
        if "https://"@.is_prefix_of(h) {
            assert("https://"@[4] == h.subrange(0, 8)[4]);
        }
    }
    let ws = "wss://"@ + rest;
    let w = "ws://"@ + rest;
    assert(!"https://"@.is_prefix_of(ws) && !"http://"@.is_prefix_of(ws)) by {
        if "https://"@.is_prefix_of(ws) {
            assert("https://"@[0] == ws.subrange(0, 8)[0]);
        }
        if "http://"@.is_prefix_of(ws) {
            assert("http://"@[0] == ws.subrange(0, 7)[0]);
        }
    }
    assert(!"https://"@.is_prefix_of(w) && !"http://"@.is_prefix_of(w)) by {
        if "https://"@.is_prefix_of(w) {
            assert("https://"@[0] == w.subrange(0, 8)[0]);
        }
        if "http://"@.is_prefix_of(w) {
            assert("http://"@[0] == w.subrange(0, 7)[0]);
        }
    }
}

/// The signaling URL of a server is secure exactly if its own URL is, and the
/// rest of it stays.
pub proof fn law_signaling_is_as_secure(http_base: &str, url: String)
    requires
        call_ensures(http_url_to_ws, (http_base,), url),
    ensures
        "https://"@.is_prefix_of(http_base@) ==> "wss://"@.is_prefix_of(url@) && url@.skip(6)
            == http_base@.skip(8),
        "http://"@.is_prefix_of(http_base@) ==> "ws://"@.is_prefix_of(url@) && url@.skip(5)
            == http_base@.skip(7),
        !"https://"@.is_prefix_of(http_base@) && !"http://"@.is_prefix_of(http_base@) ==> url@
            == http_base@,
{
    reveal_strlit("https://");
    reveal_strlit("http://");
    reveal_strlit("wss://");
    reveal_strlit("ws://");
    let base = http_base@;
    if "https://"@.is_prefix_of(base) {
        let rest = base.skip(8);
        assert(base =~= "https://"@ + rest);
        law_rewriting_keeps_the_rest(rest);
        assert("wss://"@ =~= url@.subrange(0, 6));
        assert(url@.skip(6) =~= rest);
        if "http://"@.is_prefix_of(base) {
            assert("http://"@[4] == base.subrange(0, 7)[4]);
            assert("https://"@[4] == base.subrange(0, 8)[4]);
        }
    } else if "http://"@.is_prefix_of(base) {
        let rest = base.skip(7);
        assert(base =~= "http://"@ + rest);
        law_rewriting_keeps_the_rest(rest);
        assert("ws://"@ =~= url@.subrange(0, 5));
        assert(url@.skip(5) =~= rest);
    }
}

/// Viewers find a room below the server's own URL, each room under its own
/// code.
pub proof fn law_rooms_have_their_own_pages(
    backend_url: &str,
    code: &str,
    url: String,
    other: &str,
    other_url: String,
)
    requires
        call_ensures(watch_url, (backend_url, code), url),
        call_ensures(watch_url, (backend_url, other), other_url),
    ensures
        url@.len() == backend_url@.len() + 7 + code@.len(),
        url@.take(backend_url@.len() as int) == backend_url@,
        url@.skip(backend_url@.len() + 7int) == code@,
        url@.subrange(backend_url@.len() as int, backend_url@.len() + 7int) == "/watch/"@,
        url@ == other_url@ <==> code@ == other@,
{
    reveal_strlit("/watch/");
    assert(url@.take(backend_url@.len() as int) =~= backend_url@);
    assert(url@.skip(backend_url@.len() + 7int) =~= code@);
    assert(other_url@.skip(backend_url@.len() + 7int) =~= other@);
    assert(url@.subrange(backend_url@.len() as int, backend_url@.len() + 7int) =~= "/watch/"@);
}

/// A host that serves its own page is found under its own address and port,
/// over plain HTTP.
pub proof fn law_direct_page(public_host: &str, port: u16, url: String)
    requires
        call_ensures(direct_url, (public_host, port), url),
    ensures
        "http://"@.is_prefix_of(url@),
        url@.skip(7).take(public_host@.len() as int) == public_host@,
        url@[7int + public_host@.len()] == ':',
        url@.last() == '/',
        url@.subrange(8int + public_host@.len(), url@.len() - 1) == decimal(port as nat),
{
    reveal_strlit("http://");
    reveal_strlit(":");
    reveal_strlit("/");
    assert("http://"@ =~= url@.subrange(0, 7));
    assert(url@.skip(7).take(public_host@.len() as int) =~= public_host@);
    assert(url@.subrange(8int + public_host@.len(), url@.len() - 1) =~= decimal(port as nat));
}

/// A host always reports its version, at the end of the URL, and asks for a
/// room code exactly if it has one to reuse.
pub proof fn law_host_reports_its_version(
    base: &str,
    code: &str,
    version: &str,
    fresh: String,
    again: String,
)
    requires
        call_ensures(host_signal_url, (base, None::<&str>, version), fresh),
        call_ensures(host_signal_url, (base, Some(code), version), again),
    ensures
        base@.is_prefix_of(fresh@) && base@.is_prefix_of(again@),
        fresh@ == base@ + "/v1/host-signal?client_version="@ + version@,
        again@ == base@ + "/v1/host-signal?room_code="@ + code@ + "&client_version="@ + version@,
        again@.len() == fresh@.len() + 11 + code@.len(),
{
    reveal_strlit("/v1/host-signal?client_version=");
    reveal_strlit("/v1/host-signal?room_code=");
    reveal_strlit("&client_version=");
    assert(base@ =~= fresh@.subrange(0, base@.len() as int));
    assert(base@ =~= again@.subrange(0, base@.len() as int));
}

} // verus!
