//! The host's side of signaling, and what its peer connections are set up
//! with.
//!
//! The host connects outbound to the server, which relays per-viewer offers
//! and answers. It reconnects with growing pauses if the connection drops,
//! asking for the same room code again.
use vstd::prelude::*;

use crate::frame_sender::{after_leave, FrameSender};
use crate::text::{same_text, str_view};
use crate::upnp::PortForward;

verus! {

// ---------------------------------------------------------------------
// Outside types and calls
// ---------------------------------------------------------------------

/// A session description, opaque but for [`sdp_text`].
#[verifier::external_type_specification]
#[verifier::external_body]
pub struct ExSessionDescription(
    webrtc::peer_connection::sdp::session_description::RTCSessionDescription,
);

/// What went wrong in the WebRTC stack.
#[verifier::external_type_specification]
#[verifier::external_body]
pub struct ExRtcError(webrtc::Error);

/// A range of local UDP ports, opaque but for [`port_range`].
#[verifier::external_type_specification]
#[verifier::external_body]
pub struct ExEphemeralUdp(webrtc_ice::udp_network::EphemeralUDP);

/// What went wrong in ICE.
#[verifier::external_type_specification]
#[verifier::external_body]
pub struct ExIceError(webrtc_ice::Error);

/// The text of a session description.
pub uninterp spec fn sdp_text(
    description: webrtc::peer_connection::sdp::session_description::RTCSessionDescription,
) -> Seq<char>;

/// Whether a text can be read as a session description.
pub uninterp spec fn is_sdp(text: Seq<char>) -> bool;

/// The first and the last port of a range of local UDP ports.
pub uninterp spec fn port_range(udp: webrtc_ice::udp_network::EphemeralUDP) -> (u16, u16);

/// `RTCSessionDescription::offer` parses its argument, and fails exactly
/// where that does, which depends on the text alone. What it returns holds
/// that text.
pub assume_specification [ webrtc::peer_connection::sdp::session_description::RTCSessionDescription::offer ](
    sdp: String,
) -> (offer: Result<
    webrtc::peer_connection::sdp::session_description::RTCSessionDescription,
    webrtc::Error,
>)
    ensures
        match offer {
            Ok(description) => is_sdp(sdp@) && sdp_text(description) == sdp@,
            Err(_) => !is_sdp(sdp@),
        },
;

/// `EphemeralUDP::new` takes the ports from the first to the last, and fails
/// exactly where the last comes before the first.
pub assume_specification [ webrtc_ice::udp_network::EphemeralUDP::new ](
    port_min: u16,
    port_max: u16,
) -> (udp: Result<webrtc_ice::udp_network::EphemeralUDP, webrtc_ice::Error>)
    ensures
        match udp {
            Ok(range) => port_min <= port_max && port_range(range) == (port_min, port_max),
            Err(_) => port_max < port_min,
        },
;

// ---------------------------------------------------------------------
// Peer connections
// ---------------------------------------------------------------------

/// How a peer connection reaches the outside.
pub struct NetworkPlan {
    /// The local ports to gather candidates on; any, if `None`.
    pub udp: Option<webrtc_ice::udp_network::EphemeralUDP>,
    /// The addresses that local ones are swapped for in server-reflexive
    /// candidates.
    pub nat_1to1_ips: Vec<String>,
}

/// How peer connections reach the outside: through the mapped ports, with
/// the router's address in place of their own, if there is a port mapping.
///
/// The mapped range is 1:1, so a straight IP swap on whichever port is
/// picked produces a real, externally-reachable candidate.
pub fn network_plan(forward: Option<&PortForward>) -> (plan: NetworkPlan)
    ensures
        match forward {
            Some(f) => {
                &&& f.port_min <= f.port_max ==> plan.udp is Some && port_range(plan.udp->0) == (
                    f.port_min,
                    f.port_max,
                )
                &&& f.port_max < f.port_min ==> plan.udp is None
                &&& plan.nat_1to1_ips@.len() == 1
                &&& plan.nat_1to1_ips@[0]@ == f.external_ip@
            },
            None => plan.udp is None && plan.nat_1to1_ips@.len() == 0,
        },
{
    let mut nat_1to1_ips: Vec<String> = Vec::new();
    match forward {
        Some(f) => {
            nat_1to1_ips.push(f.external_ip.clone());
            match webrtc_ice::udp_network::EphemeralUDP::new(f.port_min, f.port_max) {
                Ok(range) => NetworkPlan { udp: Some(range), nat_1to1_ips },
                Err(_) => NetworkPlan { udp: None, nat_1to1_ips },
            }
        },
        None => NetworkPlan { udp: None, nat_1to1_ips },
    }
}

/// The states of a peer connection.
#[derive(Debug, Clone, Copy, PartialEq, Eq, Structural)]
pub enum PeerState {
    Unspecified,
    New,
    Connecting,
    Connected,
    Disconnected,
    Failed,
    Closed,
}

/// Whether a viewer whose peer connection came to `state` has left.
pub fn ends_viewer(state: PeerState) -> (gone: bool)
    ensures
        gone == (state == PeerState::Disconnected || state == PeerState::Failed || state
            == PeerState::Closed),
{
    matches!(state, PeerState::Disconnected | PeerState::Failed | PeerState::Closed)
}

// ---------------------------------------------------------------------
// Connecting
// ---------------------------------------------------------------------

/// The header under which a host presents its token.
pub const HOST_TOKEN_HEADER: &'static str = "x-framewire-host-token";

/// The token that a host with the given setting presents: none if the
/// setting is empty.
pub open spec fn presented(host_token: Seq<char>) -> Option<Seq<char>> {
    if host_token.len() == 0 {
        None
    } else {
        Some(host_token)
    }
}

/// The token to present to the server.
pub fn presented_token(host_token: &str) -> (token: Option<&str>)
    ensures
        str_view(token) == presented(host_token@),
{
    if host_token.unicode_len() == 0 {
        None
    } else {
        Some(host_token)
    }
}

// ---------------------------------------------------------------------
// Messages from the server
// ---------------------------------------------------------------------

/// Messages received from the server.
pub enum HostInbound {
    RoomCreated { room_code: String },
    Offer { viewer_id: String, sdp: String },
    ViewerLeft { viewer_id: String },
    VersionRejected { min_version: String },
}

/// The server rejected this build as too old. Callers should stop retrying
/// and surface this to the user instead of looping forever against a server
/// that will keep saying no.
pub struct VersionRejected {
    pub min_version: String,
}

/// The first half of [`VersionRejected::message`].
pub const REJECTED_BEFORE: &'static str =
    "このバージョンは古いためbackendに拒否されました（必要バージョン: ";

/// The second half of [`VersionRejected::message`].
pub const REJECTED_AFTER: &'static str =
    "以上）。新しいframewire.exeをダウンロードしてください。";

impl VersionRejected {
    /// What to tell the user.
    pub fn message(&self) -> (text: String)
        ensures
            text@ == REJECTED_BEFORE@ + self.min_version@ + REJECTED_AFTER@,
    {
        crate::text::join(REJECTED_BEFORE, self.min_version.as_str()).concat(REJECTED_AFTER)
    }
}

/// What the server's first message means.
pub enum FirstReply {
    /// The host's room is open.
    Room { room_code: String },
    /// The server does not take this build.
    Rejected(VersionRejected),
    /// The server should not have said that.
    Unexpected,
}

/// What the server's first message means.
pub fn first_reply(inbound: HostInbound) -> (reply: FirstReply)
    ensures
        match inbound {
            HostInbound::RoomCreated { room_code } => reply == (FirstReply::Room { room_code }),
            HostInbound::VersionRejected { min_version } => reply == FirstReply::Rejected(
                VersionRejected { min_version },
            ),
            HostInbound::Offer { .. } => reply == FirstReply::Unexpected,
            HostInbound::ViewerLeft { .. } => reply == FirstReply::Unexpected,
        },
{
    match inbound {
        HostInbound::RoomCreated { room_code } => FirstReply::Room { room_code },
        HostInbound::VersionRejected { min_version } => FirstReply::Rejected(
            VersionRejected { min_version },
        ),
        HostInbound::Offer { .. } => FirstReply::Unexpected,
        HostInbound::ViewerLeft { .. } => FirstReply::Unexpected,
    }
}

/// What a message from the server asks the host to do.
pub enum SignalAction {
    Nothing,
    /// Set up a connection for a viewer and send the answer back.
    Connect {
        viewer_id: String,
        offer: webrtc::peer_connection::sdp::session_description::RTCSessionDescription,
    },
    /// A viewer's offer could not be read.
    BadOffer { viewer_id: String, error: webrtc::Error },
    /// The server rejected this build after it had accepted it.
    LateRejection { min_version: String },
}

/// What an offer asks the host to do, once it has been read.
pub fn on_offer(
    viewer_id: String,
    offer: Result<
        webrtc::peer_connection::sdp::session_description::RTCSessionDescription,
        webrtc::Error,
    >,
) -> (action: SignalAction)
    ensures
        match offer {
            Ok(description) => action == (SignalAction::Connect { viewer_id, offer: description }),
            Err(error) => action == (SignalAction::BadOffer { viewer_id, error }),
        },
{
    match offer {
        Ok(description) => SignalAction::Connect { viewer_id, offer: description },
        Err(error) => SignalAction::BadOffer { viewer_id, error },
    }
}

/// Handles a message from the server: reads offers, and takes out viewers
/// that have left.
pub fn handle_signal_message<T>(sender: &mut FrameSender<T>, inbound: HostInbound) -> (action:
    SignalAction)
    ensures
        match inbound {
            HostInbound::RoomCreated { .. } => action == SignalAction::Nothing && final(sender)@
                == old(sender)@,
            HostInbound::VersionRejected { min_version } => action == (SignalAction::LateRejection {
                min_version,
            }) && final(sender)@ == old(sender)@,
            HostInbound::Offer { viewer_id, sdp } => {
                &&& final(sender)@ == old(sender)@
                &&& is_sdp(sdp@) ==> action is Connect && action->Connect_viewer_id == viewer_id
                    && sdp_text(action->offer) == sdp@
                &&& !is_sdp(sdp@) ==> action is BadOffer && action->BadOffer_viewer_id == viewer_id
            },
            HostInbound::ViewerLeft { viewer_id } => {
                &&& action == SignalAction::Nothing
                &&& final(sender)@ == after_leave(old(sender)@, viewer_id@)
            },
        },
{
    match inbound {
        HostInbound::RoomCreated { .. } => SignalAction::Nothing,
        HostInbound::VersionRejected { min_version } => SignalAction::LateRejection { min_version },
        HostInbound::Offer { viewer_id, sdp } => on_offer(
            viewer_id,
            webrtc::peer_connection::sdp::session_description::RTCSessionDescription::offer(sdp),
        ),
        HostInbound::ViewerLeft { viewer_id } => {
            sender.remove_viewer(viewer_id.as_str());
            SignalAction::Nothing
        },
    }
}

// ---------------------------------------------------------------------
// Reconnecting
// ---------------------------------------------------------------------

/// The first pause between attempts, in seconds.
pub const FIRST_BACKOFF_SECS: u64 = 2;

/// The longest pause between attempts, in seconds.
pub const MAX_BACKOFF_SECS: u64 = 30;

/// How an attempt to reconnect ended.
pub enum Attempt {
    /// The server opened a room under this code.
    Connected { confirmed_code: String },
    /// The server does not take this build.
    VersionRejected,
    Failed,
}

/// What to do after an attempt to reconnect.
#[derive(Debug, Clone, Copy, PartialEq, Eq, Structural)]
pub enum ReconnectStep {
    /// Serve the connection until it drops, then attempt again.
    Serve { code_changed: bool },
    /// There is no point in retrying.
    GiveUp,
    /// Pause, then attempt again.
    Wait { secs: u64 },
}

/// What reconnecting remembers.
#[verifier::ext_equal]
pub struct ReconnectView {
    /// The room code that every attempt asks for.
    pub room_code: Seq<char>,
    /// The pause after the next failed attempt, in seconds.
    pub backoff: u64,
}

/// The pause that follows a pause: twice as long, up to the longest.
pub open spec fn longer(backoff: u64) -> u64 {
    if backoff * 2 <= MAX_BACKOFF_SECS {
        (backoff * 2) as u64
    } else {
        MAX_BACKOFF_SECS
    }
}

/// What is remembered after an attempt.
pub open spec fn after_attempt(r: ReconnectView, attempt: Attempt) -> ReconnectView {
    match attempt {
        Attempt::Connected { .. } => ReconnectView { backoff: FIRST_BACKOFF_SECS, ..r },
        Attempt::VersionRejected => r,
        Attempt::Failed => ReconnectView { backoff: longer(r.backoff), ..r },
    }
}

/// What to do after an attempt.
pub open spec fn step_after(r: ReconnectView, attempt: Attempt) -> ReconnectStep {
    match attempt {
        Attempt::Connected { confirmed_code } => ReconnectStep::Serve {
            code_changed: confirmed_code@ != r.room_code,
        },
        Attempt::VersionRejected => ReconnectStep::GiveUp,
        Attempt::Failed => ReconnectStep::Wait { secs: r.backoff },
    }
}

/// Reconnects a host whose connection to the server dropped.
pub struct Reconnect {
    room_code: String,
    backoff: u64,
}

impl View for Reconnect {
    type V = ReconnectView;

    closed spec fn view(&self) -> ReconnectView {
        ReconnectView { room_code: self.room_code@, backoff: self.backoff }
    }
}

impl Reconnect {
    #[verifier::type_invariant]
    closed spec fn bounded(&self) -> bool {
        FIRST_BACKOFF_SECS <= self.backoff <= MAX_BACKOFF_SECS
    }

    /// Reconnects to the room of the given code.
    pub fn new(room_code: String) -> (r: Self)
        ensures
            r@ == (ReconnectView { room_code: room_code@, backoff: FIRST_BACKOFF_SECS }),
    {
        Reconnect { room_code, backoff: FIRST_BACKOFF_SECS }
    }

    /// The room code to ask for.
    pub fn room_code(&self) -> (code: &str)
        ensures
            code@ == self@.room_code,
    {
        self.room_code.as_str()
    }

    /// What to do after an attempt.
    pub fn on_attempt(&mut self, attempt: &Attempt) -> (step: ReconnectStep)
        ensures
            final(self)@ == after_attempt(old(self)@, *attempt),
            step == step_after(old(self)@, *attempt),
            FIRST_BACKOFF_SECS <= final(self)@.backoff <= MAX_BACKOFF_SECS,
    {
        proof {
            use_type_invariant(&*self);
        }
        match attempt {
            Attempt::Connected { confirmed_code } => {
                let code_changed = !same_text(confirmed_code.as_str(), self.room_code.as_str());
                self.backoff = FIRST_BACKOFF_SECS;
                ReconnectStep::Serve { code_changed }
            },
            Attempt::VersionRejected => ReconnectStep::GiveUp,
            Attempt::Failed => {
                let secs: u64 = self.backoff;
                self.backoff = if secs * 2 <= MAX_BACKOFF_SECS {
                    secs * 2
                } else {
                    MAX_BACKOFF_SECS
                };
                ReconnectStep::Wait { secs }
            },
        }
    }
}

/// What is remembered after a run of failed attempts.
pub open spec fn after_failures(r: ReconnectView, n: nat) -> ReconnectView
    decreases n,
{
    if n == 0 {
        r
    } else {
        after_attempt(after_failures(r, (n - 1) as nat), Attempt::Failed)
    }
}

/// However often attempts fail, the same room code is asked for, and the
/// pauses grow from the first to the longest: 2, 4, 8, 16 and then always
/// 30 seconds.
pub proof fn law_pauses_grow(room_code: Seq<char>, n: nat)
    ensures
        ({
            let r = after_failures(ReconnectView { room_code, backoff: FIRST_BACKOFF_SECS }, n);
            &&& r.room_code == room_code
            &&& step_after(r, Attempt::Failed) == (ReconnectStep::Wait {
                secs: if n == 0 {
                    2
                } else if n == 1 {
                    4
                } else if n == 2 {
                    8
                } else if n == 3 {
                    16
                } else {
                    30
                },
            })
        }),
    decreases n,
{
    if n > 0 {
        law_pauses_grow(room_code, (n - 1) as nat);
    }
}

/// A connection that came about starts the pauses afresh, and keeps the room
/// code that is asked for even if the server confirmed another one.
pub proof fn law_success_starts_afresh(r: ReconnectView, confirmed_code: String)
    ensures
        after_attempt(r, Attempt::Connected { confirmed_code }) == (ReconnectView {
            room_code: r.room_code,
            backoff: FIRST_BACKOFF_SECS,
        }),
{
}

// ---------------------------------------------------------------------
// Laws
// ---------------------------------------------------------------------

/// Connections use the mapped ports, all of them and no others, and the
/// router's address in place of their own; without a mapping they use any
/// port and their own address.
pub proof fn law_mapped_ports_are_used(
    forward: &PortForward,
    mapped: NetworkPlan,
    unmapped: NetworkPlan,
)
    requires
        call_ensures(network_plan, (Some(forward),), mapped),
        call_ensures(network_plan, (None,), unmapped),
    ensures
        mapped.udp is Some <==> forward.port_min <= forward.port_max,
        mapped.udp matches Some(range) ==> port_range(range) == (forward.port_min, forward.port_max),
        mapped.nat_1to1_ips@.len() == 1 && mapped.nat_1to1_ips@[0]@ == forward.external_ip@,
        unmapped.udp is None && unmapped.nat_1to1_ips@.len() == 0,
{
}

/// A viewer has left once its connection is disconnected, failed or closed,
/// and not while it is being set up or works.
pub proof fn law_when_a_viewer_has_left(state: PeerState, gone: bool)
    requires
        call_ensures(ends_viewer, (state,), gone),
    ensures
        state is Disconnected || state is Failed || state is Closed ==> gone,
        state is Unspecified || state is New || state is Connecting || state is Connected ==> !gone,
{
}

/// A host presents its token as it is set, and none if it is empty.
pub proof fn law_token_is_presented(host_token: &str, token: Option<&str>)
    requires
        call_ensures(presented_token, (host_token,), token),
    ensures
        token is None <==> host_token@.len() == 0,
        token matches Some(t) ==> t@ == host_token@,
{
}

/// The first thing that the server says is either the host's room or that it
/// does not take this build; it says so with the code or the version it sent.
pub proof fn law_first_reply(inbound: HostInbound, reply: FirstReply)
    requires
        call_ensures(first_reply, (inbound,), reply),
    ensures
        reply is Room <==> inbound is RoomCreated,
        reply is Rejected <==> inbound is VersionRejected,
        reply is Unexpected <==> inbound is Offer || inbound is ViewerLeft,
        reply matches FirstReply::Room { room_code } ==> inbound
            matches HostInbound::RoomCreated { room_code: sent } && room_code@ == sent@,
        reply matches FirstReply::Rejected(rejected) ==> inbound
            matches HostInbound::VersionRejected { min_version: sent } && rejected.min_version@
            == sent@,
{
}

/// Offers are answered for the viewer they came from, with the description it
/// sent, or refused to it; a viewer that left is forgotten, and no other; and
/// nothing else touches the viewers.
pub proof fn law_messages_from_the_server<T>(
    sender: &mut FrameSender<T>,
    inbound: HostInbound,
    action: SignalAction,
)
    requires
        call_ensures(handle_signal_message::<T>, (sender, inbound), action),
    ensures
        action is Connect ==> inbound is Offer,
        action is BadOffer ==> inbound is Offer,
        action is LateRejection <==> inbound is VersionRejected,
        action is Nothing <==> inbound is RoomCreated || inbound is ViewerLeft,
        inbound matches HostInbound::Offer { viewer_id, sdp } ==> {
            &&& action is Connect <==> is_sdp(sdp@)
            &&& action matches SignalAction::Connect { viewer_id: viewer, offer }
                ==> viewer@ == viewer_id@ && sdp_text(offer) == sdp@
            &&& action matches SignalAction::BadOffer { viewer_id: viewer, error } ==> viewer@
                == viewer_id@
        },
        action matches SignalAction::LateRejection { min_version } ==> inbound
            matches HostInbound::VersionRejected { min_version: sent } && min_version@ == sent@,
        inbound matches HostInbound::ViewerLeft { viewer_id } ==> {
            &&& !final(sender)@.viewers.contains_key(viewer_id@)
            &&& !final(sender)@.desired.contains_key(viewer_id@)
            &&& forall|other: Seq<char>|
                other != viewer_id@ ==> (#[trigger] final(sender)@.viewers.contains_key(other)
                    <==> old(sender)@.viewers.contains_key(other))
        },
        !(inbound is ViewerLeft) ==> final(sender)@.viewers == old(sender)@.viewers && final(sender)@.desired == old(sender)@.desired && final(sender)@.target == old(sender)@.target,
        final(sender)@.force_idr == old(sender)@.force_idr,
{
}

/// After an attempt to reconnect: a connection is served, and reported if its
/// room code is another than the one asked for; a build that is too old gives
/// up; and a failed attempt waits, 2 seconds at first and then twice as long
/// every time, but never longer than 30. The code that is asked for never
/// changes.
pub proof fn law_one_attempt_to_reconnect(
    r: &mut Reconnect,
    attempt: Attempt,
    step: ReconnectStep,
    room_code: String,
    fresh: Reconnect,
    asked: &str,
)
    requires
        call_ensures(Reconnect::on_attempt, (r, &attempt), step),
        call_ensures(Reconnect::new, (room_code,), fresh),
        call_ensures(Reconnect::room_code, (&fresh,), asked),
        2 <= old(r)@.backoff <= 30,
    ensures
        asked@ == room_code@,
        fresh@.backoff == 2,
        step is Serve <==> attempt is Connected,
        step is GiveUp <==> attempt is VersionRejected,
        step is Wait <==> attempt is Failed,
        final(r)@.room_code == old(r)@.room_code,
        attempt matches Attempt::Connected { confirmed_code } ==> {
            &&& final(r)@.backoff == 2
            &&& step == (ReconnectStep::Serve {
                code_changed: confirmed_code@ != old(r)@.room_code,
            })
        },
        attempt is Failed ==> {
            &&& step == (ReconnectStep::Wait { secs: old(r)@.backoff })
            &&& old(r)@.backoff <= 15 ==> final(r)@.backoff == old(r)@.backoff + old(r)@.backoff
            &&& old(r)@.backoff > 15 ==> final(r)@.backoff == 30
        },
        attempt is VersionRejected ==> final(r)@.backoff == old(r)@.backoff,
{
}

/// The message for a build that is too old names the version that is taken.
pub proof fn law_rejection_names_the_version(rejected: VersionRejected, text: String)
    requires
        call_ensures(VersionRejected::message, (&rejected,), text),
    ensures
        exists|before: Seq<char>, after: Seq<char>|
            before.len() > 0 && after.len() > 0 && text@ == #[trigger] (before
                + rejected.min_version@ + after),
{
    reveal_strlit("このバージョンは古いためbackendに拒否されました（必要バージョン: ");
    reveal_strlit("以上）。新しいframewire.exeをダウンロードしてください。");
    assert(text@ == REJECTED_BEFORE@ + rejected.min_version@ + REJECTED_AFTER@);
}

} // verus!
