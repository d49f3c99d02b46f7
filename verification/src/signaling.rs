//! The signaling server: relays offer/answer messages between a streaming
//! host and its viewers.
//!
//! - A host connects, possibly asking for a room code to reuse and reporting
//!   its version and token. It is turned away with `unauthorized` or
//!   `version_rejected` before a room is created, or receives its room code;
//!   then it answers per-viewer offers.
//! - A viewer connects to a room code, sends an offer, and receives the
//!   matching answer. Repeated wrong room codes are throttled globally.
use vstd::prelude::*;

use crate::config::Config;
use crate::messages::{
    answer_in, answer_to_viewer, bare, error, member_in, offer_in, offer_to_host, parse_answer,
    parse_offer, room_created, says, unauthorized, version_rejected, viewer_left, with_one,
    with_viewer_and_sdp,
};
use crate::ratelimit::{without_expired, FailureRateLimiter};
use crate::roomcode::{generate_viewer_id, is_room_code, is_viewer_id};
use crate::rooms::{all_codes_taken, grants, Delivery, RoomStore, RoomView};
use crate::text::{same_text, str_view};
use crate::transport::presented;
use crate::version::{at_least, parse_version, version_at_least, version_of};

verus! {

/// How many wrong room codes the window may hold before viewers are throttled.
pub const MAX_LOOKUP_FAILURES: usize = 20;

/// How long a wrong room code counts: a minute, in nanoseconds.
pub const LOOKUP_WINDOW: u128 = 60_000_000_000;

/// What a throttled viewer is told.
pub const TOO_MANY_ATTEMPTS: &'static str = "Too many attempts, try again later";

/// What a viewer with a wrong room code is told.
pub const STREAM_NOT_FOUND: &'static str =
    "Stream not found (wrong code, or the stream hasn't started yet)";

// ---------------------------------------------------------------------
// Admitting hosts
// ---------------------------------------------------------------------

/// Whether a host may open a room.
#[derive(Debug, Clone, Copy, PartialEq, Eq, Structural)]
pub enum Admission {
    Unauthorized,
    TooOld,
    Accepted,
}

/// Whether a host may open a room: if the server has a token, the host must
/// present the same; if the server has a minimum version, the host must
/// report one that is not below it.
pub open spec fn admission(
    config: Config,
    client_version: Option<Seq<char>>,
    host_token: Option<Seq<char>>,
) -> Admission {
    if config.host_token is Some && host_token != Some(config.host_token->0@) {
        Admission::Unauthorized
    } else if config.min_host_version is Some && !(client_version is Some && at_least(
        version_of(client_version->0),
        version_of(config.min_host_version->0@),
    )) {
        Admission::TooOld
    } else {
        Admission::Accepted
    }
}

/// Decides whether a host may open a room.
pub fn admit_host(config: &Config, client_version: Option<&str>, host_token: Option<&str>) -> (a:
    Admission)
    ensures
        a == admission(*config, str_view(client_version), str_view(host_token)),
{
    if let Some(expected) = &config.host_token {
        let matches = match host_token {
            Some(token) => same_text(token, expected.as_str()),
            None => false,
        };
        if !matches {
            return Admission::Unauthorized;
        }
    }
    if let Some(min_version) = &config.min_host_version {
        let accepted = match client_version {
            Some(v) => version_at_least(parse_version(v), parse_version(min_version.as_str())),
            None => false,
        };
        if !accepted {
            return Admission::TooOld;
        }
    }
    Admission::Accepted
}

// ---------------------------------------------------------------------
// The server
// ---------------------------------------------------------------------

/// The state of the signaling server, with channels of type `C`.
pub struct Signaling<C> {
    pub config: Config,
    pub rooms: RoomStore<C>,
    /// Throttles repeated wrong room codes.
    pub viewer_lookup_limiter: FailureRateLimiter,
}

/// How a host's connection attempt ended.
pub enum HostConnect<C> {
    /// Send `reply`, then close.
    Rejected { reply: String },
    /// Send `welcome`, then relay messages under `room_code`.
    Connected { room_code: String, welcome: String },
    /// Every room code has a room; the host's channel is handed back.
    NoRoom { host: C },
}

/// How a viewer's connection attempt ended.
pub enum ViewerConnect {
    /// Send `reply`, then close.
    Rejected { reply: String },
    /// Relay messages for `viewer_id`, in the room of the host connection
    /// `connection`.
    Connected { viewer_id: String, connection: u64 },
}

/// Where a host's message goes, and what it then says: an answer goes to the
/// viewer it names, if that viewer is in the host's room. Anything else goes
/// nowhere.
pub open spec fn host_message_goes<C>(
    rooms: Map<Seq<char>, RoomView<C>>,
    room_code: Seq<char>,
    text: Seq<char>,
) -> Option<(C, Seq<(Seq<char>, Seq<char>)>)> {
    match answer_in(text) {
        Some((viewer_id, sdp)) => if rooms.contains_key(room_code)
            && rooms[room_code].viewers.contains_key(viewer_id) {
            Some((rooms[room_code].viewers[viewer_id], with_one("answer"@, "sdp"@, sdp)))
        } else {
            None
        },
        None => None,
    }
}

/// Where a viewer's message goes, and what it then says: an offer goes to
/// the host of the room, with the viewer's ID. Anything else goes nowhere.
pub open spec fn viewer_message_goes<C>(
    rooms: Map<Seq<char>, RoomView<C>>,
    room_code: Seq<char>,
    viewer_id: Seq<char>,
    text: Seq<char>,
) -> Option<(C, Seq<(Seq<char>, Seq<char>)>)> {
    match offer_in(text) {
        Some(sdp) => if rooms.contains_key(room_code) {
            Some((rooms[room_code].host, with_viewer_and_sdp("offer"@, viewer_id, sdp)))
        } else {
            None
        },
        None => None,
    }
}

/// Whether `delivery` is what `expected` says.
pub open spec fn delivers<C>(
    delivery: Option<Delivery<'_, C>>,
    expected: Option<(C, Seq<(Seq<char>, Seq<char>)>)>,
) -> bool {
    match (delivery, expected) {
        (Some(d), Some((to, message))) => *d.to == to && says(d.text@, message),
        (None, None) => true,
        _ => false,
    }
}

/// Whether a viewer's room is still the one it joined.
pub open spec fn still_joined<C>(
    rooms: Map<Seq<char>, RoomView<C>>,
    room_code: Seq<char>,
    connection: u64,
) -> bool {
    rooms.contains_key(room_code) && rooms[room_code].connection == connection
}

impl<C> Signaling<C> {
    /// A server without rooms.
    pub fn new(config: Config) -> (server: Self)
        ensures
            server.config == config,
            server.rooms@ == Map::<Seq<char>, RoomView<C>>::empty(),
            server.viewer_lookup_limiter.max_failures() == MAX_LOOKUP_FAILURES,
            server.viewer_lookup_limiter.window() == LOOKUP_WINDOW,
            server.viewer_lookup_limiter.failures() == Seq::<u128>::empty(),
    {
        Signaling {
            config,
            rooms: RoomStore::new(),
            viewer_lookup_limiter: FailureRateLimiter::new(MAX_LOOKUP_FAILURES, LOOKUP_WINDOW),
        }
    }

    /// A host connects. A rejected host gets no room.
    pub fn connect_host(
        &mut self,
        requested_code: Option<&str>,
        client_version: Option<&str>,
        host_token: Option<&str>,
        connection: u64,
        host: C,
    ) -> (outcome: HostConnect<C>)
        ensures
            final(self).config == old(self).config,
            final(self).viewer_lookup_limiter == old(self).viewer_lookup_limiter,
            match admission(old(self).config, str_view(client_version), str_view(host_token)) {
                Admission::Unauthorized => {
                    &&& outcome matches HostConnect::Rejected { reply } && says(
                        reply@,
                        bare("unauthorized"@),
                    )
                    &&& final(self).rooms@ == old(self).rooms@
                },
                Admission::TooOld => {
                    &&& outcome matches HostConnect::Rejected { reply } && says(
                        reply@,
                        with_one(
                            "version_rejected"@,
                            "min_version"@,
                            old(self).config.min_host_version->0@,
                        ),
                    )
                    &&& final(self).rooms@ == old(self).rooms@
                },
                Admission::Accepted => match outcome {
                    HostConnect::Rejected { .. } => false,
                    HostConnect::Connected { room_code, welcome } => {
                        &&& grants(old(self).rooms@, requested_code) || !all_codes_taken(
                            old(self).rooms@,
                        )
                        &&& !old(self).rooms@.contains_key(room_code@)
                        &&& grants(old(self).rooms@, requested_code) ==> room_code@
                            == requested_code->0@
                        &&& !grants(old(self).rooms@, requested_code) ==> is_room_code(room_code@)
                        &&& says(welcome@, with_one("room_created"@, "room_code"@, room_code@))
                        &&& final(self).rooms@ == old(self).rooms@.insert(
                            room_code@,
                            RoomView { connection, host, viewers: Map::<Seq<char>, C>::empty() },
                        )
                    },
                    HostConnect::NoRoom { host: channel } => {
                        &&& channel == host
                        &&& !grants(old(self).rooms@, requested_code)
                        &&& all_codes_taken(old(self).rooms@)
                        &&& final(self).rooms@ == old(self).rooms@
                    },
                },
            },
    {
        match admit_host(&self.config, client_version, host_token) {
            Admission::Unauthorized => HostConnect::Rejected { reply: unauthorized() },
            Admission::TooOld => {
                let reply = match &self.config.min_host_version {
                    Some(min_version) => version_rejected(min_version.as_str()),
                    None => String::new(),
                };
                HostConnect::Rejected { reply }
            },
            Admission::Accepted => {
                match self.rooms.register_host(requested_code, connection, host) {
                    Ok(room_code) => {
                        let welcome = room_created(room_code.as_str());
                        HostConnect::Connected { room_code, welcome }
                    },
                    Err(host) => HostConnect::NoRoom { host },
                }
            },
        }
    }

    /// A host's connection ended, or its welcome could not be sent: its room
    /// is discarded.
    pub fn disconnect_host(&mut self, room_code: &str)
        ensures
            final(self).config == old(self).config,
            final(self).viewer_lookup_limiter == old(self).viewer_lookup_limiter,
            final(self).rooms@ == old(self).rooms@.remove(room_code@),
    {
        self.rooms.remove_room(room_code);
    }

    /// Relays a host's `{"type":"answer","viewer_id":"...","sdp":"..."}` to
    /// the matching viewer as `{"type":"answer","sdp":"..."}`.
    pub fn handle_host_message(&self, room_code: &str, text: &str) -> (delivery: Option<
        Delivery<'_, C>,
    >)
        ensures
            delivers(delivery, host_message_goes(self.rooms@, room_code@, text@)),
    {
        match parse_answer(text) {
            Some((viewer_id, sdp)) => match self.rooms.get(room_code) {
                Some(room) => room.send_to_viewer(
                    viewer_id.as_str(),
                    answer_to_viewer(sdp.as_str()),
                ),
                None => None,
            },
            None => None,
        }
    }

    /// A viewer connects to a room code at `now`. While viewers are
    /// throttled, the code isn't even looked up; a wrong code is recorded
    /// as a failure.
    pub fn connect_viewer(&mut self, room_code: &str, channel: C, now: u128) -> (outcome:
        ViewerConnect)
        ensures
            final(self).config == old(self).config,
            final(self).viewer_lookup_limiter.max_failures() == old(self).viewer_lookup_limiter.max_failures(),
            final(self).viewer_lookup_limiter.window() == old(self).viewer_lookup_limiter.window(),
            ({
                let recent = without_expired(
                    old(self).viewer_lookup_limiter.failures(),
                    old(self).viewer_lookup_limiter.window(),
                    now,
                );
                let found = old(self).rooms@.contains_key(room_code@);
                if recent.len() >= old(self).viewer_lookup_limiter.max_failures() {
                    &&& outcome matches ViewerConnect::Rejected { reply } && says(
                        reply@,
                        with_one("error"@, "message"@, TOO_MANY_ATTEMPTS@),
                    )
                    &&& final(self).viewer_lookup_limiter.failures() == recent
                    &&& final(self).rooms@ == old(self).rooms@
                } else if !found {
                    &&& outcome matches ViewerConnect::Rejected { reply } && says(
                        reply@,
                        with_one("error"@, "message"@, STREAM_NOT_FOUND@),
                    )
                    &&& final(self).viewer_lookup_limiter.failures() == recent.push(now)
                    &&& final(self).rooms@ == old(self).rooms@
                } else {
                    let room = old(self).rooms@[room_code@];
                    &&& outcome matches ViewerConnect::Connected { viewer_id, connection } && {
                        &&& is_viewer_id(viewer_id@)
                        &&& connection == room.connection
                        &&& final(self).rooms@ == old(self).rooms@.insert(
                            room_code@,
                            RoomView { viewers: room.viewers.insert(viewer_id@, channel), ..room },
                        )
                    }
                    &&& final(self).viewer_lookup_limiter.failures() == recent
                }
            }),
    {
        if !self.viewer_lookup_limiter.is_allowed(now) {
            return ViewerConnect::Rejected { reply: error(TOO_MANY_ATTEMPTS) };
        }
        let connection: u64 = match self.rooms.get(room_code) {
            Some(room) => room.connection(),
            None => {
                self.viewer_lookup_limiter.record_failure(now);
                return ViewerConnect::Rejected { reply: error(STREAM_NOT_FOUND) };
            },
        };
        let viewer_id = generate_viewer_id();
        self.rooms.add_viewer(room_code, viewer_id.clone(), channel);
        ViewerConnect::Connected { viewer_id, connection }
    }

    /// Relays a viewer's `{"type":"offer","sdp":"..."}` to the host as
    /// `{"type":"offer","viewer_id":"...","sdp":"..."}`.
    pub fn handle_viewer_message(&self, room_code: &str, viewer_id: &str, text: &str) -> (delivery:
        Option<Delivery<'_, C>>)
        ensures
            delivers(
                delivery,
                viewer_message_goes(self.rooms@, room_code@, viewer_id@, text@),
            ),
    {
        match parse_offer(text) {
            Some(sdp) => match self.rooms.get(room_code) {
                Some(room) => Some(room.notify_host(offer_to_host(viewer_id, sdp.as_str()))),
                None => None,
            },
            None => None,
        }
    }

    /// A viewer's connection ended: it leaves its room, whose host is told.
    /// If that room is gone, nothing happens, even if another host has taken
    /// over the code.
    pub fn disconnect_viewer(&mut self, room_code: &str, connection: u64, viewer_id: &str) -> (
        delivery: Option<Delivery<'_, C>>)
        ensures
            ({
                let room = old(self).rooms@[room_code@];
                if still_joined(old(self).rooms@, room_code@, connection) {
                    &&& delivers(
                        delivery,
                        Some((room.host, with_one("viewer_left"@, "viewer_id"@, viewer_id@))),
                    )
                    &&& final(self).rooms@ == old(self).rooms@.insert(
                        room_code@,
                        RoomView { viewers: room.viewers.remove(viewer_id@), ..room },
                    )
                } else {
                    &&& delivery is None
                    &&& final(self).rooms@ == old(self).rooms@
                }
            }),
            final(self).config == old(self).config,
            final(self).viewer_lookup_limiter == old(self).viewer_lookup_limiter,
    {
        let joined = match self.rooms.get(room_code) {
            Some(room) => room.connection() == connection,
            None => false,
        };
        if !joined {
            return None;
        }
        self.rooms.remove_viewer(room_code, viewer_id);
        match self.rooms.get(room_code) {
            Some(room) => Some(room.notify_host(viewer_left(viewer_id))),
            None => None,
        }
    }
}

// ---------------------------------------------------------------------
// Laws
// ---------------------------------------------------------------------

/// The rooms once a viewer has joined one of them.
pub open spec fn joined<C>(
    rooms: Map<Seq<char>, RoomView<C>>,
    room_code: Seq<char>,
    viewer_id: Seq<char>,
    channel: C,
) -> Map<Seq<char>, RoomView<C>> {
    let room = rooms[room_code];
    rooms.insert(room_code, RoomView { viewers: room.viewers.insert(viewer_id, channel), ..room })
}

/// An exchange completes: once a viewer has joined a room, its offer reaches
/// the room's host under the viewer's ID with the SDP it sent, and the host's
/// answer to that ID reaches the viewer's own channel with the SDP the host
/// sent.
pub proof fn law_exchange_completes<C>(
    rooms: Map<Seq<char>, RoomView<C>>,
    room_code: Seq<char>,
    viewer_id: Seq<char>,
    channel: C,
    offer: Seq<char>,
    offer_sdp: Seq<char>,
    answer: Seq<char>,
    answer_sdp: Seq<char>,
)
    requires
        rooms.contains_key(room_code),
        says(offer, with_one("offer"@, "sdp"@, offer_sdp)),
        says(answer, with_viewer_and_sdp("answer"@, viewer_id, answer_sdp)),
    ensures
        viewer_message_goes(joined(rooms, room_code, viewer_id, channel), room_code, viewer_id, offer)
            == Some((rooms[room_code].host, with_viewer_and_sdp("offer"@, viewer_id, offer_sdp))),
        host_message_goes(joined(rooms, room_code, viewer_id, channel), room_code, answer) == Some(
            (channel, with_one("answer"@, "sdp"@, answer_sdp)),
        ),
{
    crate::messages::law_answer_reads_back(answer, viewer_id, answer_sdp);
    crate::messages::law_offer_reads_back(offer, offer_sdp);
}

/// A viewer that left hears nothing more, and once a host is gone nothing is
/// relayed under its room code in either direction.
pub proof fn law_gone_is_gone<C>(
    rooms: Map<Seq<char>, RoomView<C>>,
    room_code: Seq<char>,
    viewer_id: Seq<char>,
    sdp: Seq<char>,
    text: Seq<char>,
)
    ensures
        says(text, with_viewer_and_sdp("answer"@, viewer_id, sdp)) && rooms.contains_key(room_code)
            ==> {
            let room = rooms[room_code];
            host_message_goes(
                rooms.insert(
                    room_code,
                    RoomView { viewers: room.viewers.remove(viewer_id), ..room },
                ),
                room_code,
                text,
            ) is None
        },
        host_message_goes(rooms.remove(room_code), room_code, text) is None,
        viewer_message_goes(rooms.remove(room_code), room_code, viewer_id, text) is None,
{
    if says(text, with_viewer_and_sdp("answer"@, viewer_id, sdp)) {
        crate::messages::law_answer_reads_back(text, viewer_id, sdp);
    }
}

/// Rooms don't see each other: what happens to one room changes nothing for
/// messages under another room code.
pub proof fn law_rooms_are_separate<C>(
    rooms: Map<Seq<char>, RoomView<C>>,
    other_code: Seq<char>,
    other: RoomView<C>,
    room_code: Seq<char>,
    viewer_id: Seq<char>,
    text: Seq<char>,
)
    requires
        other_code != room_code,
    ensures
        host_message_goes(rooms.insert(other_code, other), room_code, text) == host_message_goes(
            rooms,
            room_code,
            text,
        ),
        viewer_message_goes(rooms.insert(other_code, other), room_code, viewer_id, text)
            == viewer_message_goes(rooms, room_code, viewer_id, text),
        host_message_goes(rooms.remove(other_code), room_code, text) == host_message_goes(
            rooms,
            room_code,
            text,
        ),
        viewer_message_goes(rooms.remove(other_code), room_code, viewer_id, text)
            == viewer_message_goes(rooms, room_code, viewer_id, text),
{
}

/// A host that reconnects after its room was discarded gets the same room
/// code again if it asks for it.
pub proof fn law_reconnecting_host_keeps_its_code<C>(
    rooms: Map<Seq<char>, RoomView<C>>,
    requested_code: &str,
)
    ensures
        grants(rooms.remove(requested_code@), Some(requested_code)),
{
}

/// A server that asks for no version and no token accepts every host; one
/// that asks for a version never accepts a host that reports none.
pub proof fn law_admission_defaults(
    config: Config,
    client_version: Option<Seq<char>>,
    host_token: Option<Seq<char>>,
)
    ensures
        config.host_token is None && config.min_host_version is None ==> admission(
            config,
            client_version,
            host_token,
        ) is Accepted,
        config.min_host_version is Some ==> !(admission(config, None, host_token) is Accepted),
        config.host_token is Some ==> admission(config, client_version, None) is Unauthorized,
{
}

/// A host whose setting is the server's token is never turned away for its
/// token, and a host with another setting always is. An empty setting
/// presents none.
pub proof fn law_the_same_token_is_admitted(
    config: Config,
    client_version: Option<Seq<char>>,
    setting: Seq<char>,
)
    requires
        config.host_token is Some,
        setting.len() > 0,
    ensures
        admission(config, client_version, presented(setting)) is Unauthorized <==> setting
            != config.host_token->0@,
{
}

/// Twenty wrong codes within a minute throttle every further viewer, right
/// code or wrong; a minute after the last of them nobody is throttled.
pub proof fn law_lookups_are_throttled(failures: Seq<u128>, now: u128)
    requires
        crate::ratelimit::in_order(failures),
    ensures
        without_expired(failures, LOOKUP_WINDOW, now).len() >= MAX_LOOKUP_FAILURES
            <==> failures.filter(
            |t: u128| !crate::ratelimit::expired(t, LOOKUP_WINDOW, now),
        ).len() >= 20,
        (forall|i: int|
            0 <= i < failures.len() ==> crate::ratelimit::expired(
                #[trigger] failures[i],
                LOOKUP_WINDOW,
                now,
            )) ==> without_expired(failures, LOOKUP_WINDOW, now).len() < MAX_LOOKUP_FAILURES,
{
    crate::ratelimit::law_keeps_exactly_the_window(failures, LOOKUP_WINDOW, now);
    if forall|i: int|
        0 <= i < failures.len() ==> crate::ratelimit::expired(
            #[trigger] failures[i],
            LOOKUP_WINDOW,
            now,
        ) {
        crate::ratelimit::law_window_passes(failures, LOOKUP_WINDOW, now);
    }
}

/// A host is turned away for its token exactly if the server has one and the
/// host does not present the same; then for its version exactly if the server
/// has a minimum and the host reports none or an older one.
pub proof fn law_who_is_admitted(
    config: Config,
    client_version: Option<&str>,
    host_token: Option<&str>,
    a: Admission,
    reported: (u32, u32, u32),
    min_version: &str,
    least: (u32, u32, u32),
    new_enough: bool,
)
    requires
        call_ensures(admit_host, (&config, client_version, host_token), a),
        client_version matches Some(v) ==> call_ensures(parse_version, (v,), reported),
        config.min_host_version matches Some(m) ==> min_version@ == m@,
        call_ensures(parse_version, (min_version,), least),
        call_ensures(version_at_least, (reported, least), new_enough),
    ensures
        ({
            let right_token = match config.host_token {
                Some(token) => host_token is Some && host_token->0@ == token@,
                None => true,
            };
            let right_version = match config.min_host_version {
                Some(_) => client_version is Some && new_enough,
                None => true,
            };
            &&& a is Unauthorized <==> !right_token
            &&& a is TooOld <==> right_token && !right_version
            &&& a is Accepted <==> right_token && right_version
        }),
{
}

/// A host that is turned away is told why and gets no room; one that is
/// admitted is told the code of its own room, which was free, and finds it
/// empty. No other room is touched.
pub proof fn law_host_connects<C>(
    server: &mut Signaling<C>,
    requested_code: Option<&str>,
    client_version: Option<&str>,
    host_token: Option<&str>,
    connection: u64,
    host: C,
    outcome: HostConnect<C>,
    a: Admission,
    other: Seq<char>,
)
    requires
        call_ensures(admit_host, (&old(server).config, client_version, host_token), a),
        call_ensures(
            Signaling::<C>::connect_host,
            (server, requested_code, client_version, host_token, connection, host),
            outcome,
        ),
    ensures
        outcome is Rejected <==> !(a is Accepted),
        outcome is Rejected || outcome is NoRoom ==> final(server).rooms@ == old(server).rooms@,
        a is Unauthorized ==> (outcome matches HostConnect::Rejected { reply } && member_in(
            reply@,
            "type"@,
        ) == Some("unauthorized"@)),
        a is TooOld ==> (outcome matches HostConnect::Rejected { reply } && member_in(
            reply@,
            "type"@,
        ) == Some("version_rejected"@) && member_in(reply@, "min_version"@) == Some(
            old(server).config.min_host_version->0@,
        )),
        outcome matches HostConnect::Connected { room_code, welcome } ==> {
            &&& member_in(welcome@, "type"@) == Some("room_created"@)
            &&& member_in(welcome@, "room_code"@) == Some(room_code@)
            &&& !old(server).rooms@.contains_key(room_code@)
            &&& final(server).rooms@.contains_key(room_code@)
            &&& final(server).rooms@[room_code@].host == host
            &&& final(server).rooms@[room_code@].connection == connection
            &&& final(server).rooms@[room_code@].viewers.dom().is_empty()
            &&& requested_code is Some ==> (room_code@ == requested_code->0@ <==> !old(server).rooms@.contains_key(requested_code->0@))
            &&& room_code@.len() == 6 || requested_code is Some && room_code@ == requested_code->0@
            &&& other != room_code@ ==> (final(server).rooms@.contains_key(other) <==> old(server).rooms@.contains_key(other))
            &&& other != room_code@ && old(server).rooms@.contains_key(other)
                ==> final(server).rooms@[other] == old(server).rooms@[other]
        },
        outcome is NoRoom && is_room_code(other) ==> old(server).rooms@.contains_key(other),
        final(server).config == old(server).config,
{
    reveal_strlit("type");
    reveal_strlit("min_version");
    reveal_strlit("room_code");
    assert("type"@.len() == 4 && "min_version"@.len() == 11 && "room_code"@.len() == 9);
    if let HostConnect::Rejected { reply } = outcome {
        if a is Unauthorized {
            crate::messages::law_bare_notice_reads_back(reply@, "unauthorized"@);
        } else {
            crate::messages::law_notice_reads_back(
                reply@,
                "version_rejected"@,
                "min_version"@,
                old(server).config.min_host_version->0@,
            );
        }
    }
    if let HostConnect::Connected { room_code, welcome } = outcome {
        crate::messages::law_notice_reads_back(
            welcome@,
            "room_created"@,
            "room_code"@,
            room_code@,
        );
    }
}

/// A viewer gets into a room exactly if its code is right and no twenty wrong
/// codes lie within the last minute. A wrong code counts, a right one or a
/// refusal does not, and a viewer that does not get in is told which it was.
pub proof fn law_viewer_connects<C>(
    config: Config,
    fresh: Signaling<C>,
    server: &mut Signaling<C>,
    room_code: &str,
    channel: C,
    now: u128,
    outcome: ViewerConnect,
)
    requires
        call_ensures(Signaling::<C>::new, (config,), fresh),
        old(server).viewer_lookup_limiter.max_failures()
            == fresh.viewer_lookup_limiter.max_failures(),
        old(server).viewer_lookup_limiter.window() == fresh.viewer_lookup_limiter.window(),
        crate::ratelimit::in_order(old(server).viewer_lookup_limiter.failures()),
        call_ensures(Signaling::<C>::connect_viewer, (server, room_code, channel, now), outcome),
    ensures
        ({
            let failures = old(server).viewer_lookup_limiter.failures();
            let recent = failures.filter(|t: u128| t + 60_000_000_000 >= now);
            let known = old(server).rooms@.contains_key(room_code@);
            &&& outcome is Connected <==> known && recent.len() < 20
            &&& outcome matches ViewerConnect::Rejected { reply } ==> member_in(reply@, "type"@)
                == Some("error"@) && member_in(reply@, "message"@) == Some(
                if recent.len() >= 20 {
                    "Too many attempts, try again later"@
                } else {
                    "Stream not found (wrong code, or the stream hasn't started yet)"@
                },
            )
            &&& final(server).viewer_lookup_limiter.failures() == if !known && recent.len() < 20 {
                recent.push(now)
            } else {
                recent
            }
            &&& outcome is Rejected ==> final(server).rooms@ == old(server).rooms@
            &&& outcome matches ViewerConnect::Connected { viewer_id, connection } ==> {
                let room = final(server).rooms@[room_code@];
                &&& viewer_id@.len() == 10
                &&& connection == old(server).rooms@[room_code@].connection
                &&& room.viewers.contains_key(viewer_id@) && room.viewers[viewer_id@] == channel
                &&& room.host == old(server).rooms@[room_code@].host
                &&& room.connection == connection
            }
        }),
        forall|other: Seq<char>|
            other != room_code@ ==> (#[trigger] final(server).rooms@.contains_key(other) <==> old(server).rooms@.contains_key(other)),
        fresh.viewer_lookup_limiter.failures().len() == 0,
        fresh.rooms@.dom().is_empty(),
        fresh.config == config,
{
    let failures = old(server).viewer_lookup_limiter.failures();
    crate::ratelimit::law_keeps_exactly_the_window(failures, 60_000_000_000, now);
    assert((|t: u128| !crate::ratelimit::expired(t, 60_000_000_000, now)) =~= (|t: u128|
        t + 60_000_000_000 >= now));
    reveal_strlit("type");
    reveal_strlit("message");
    assert("type"@.len() == 4 && "message"@.len() == 7);
    if let ViewerConnect::Rejected { reply } = outcome {
        let recent = failures.filter(|t: u128| t + 60_000_000_000 >= now);
        crate::messages::law_notice_reads_back(
            reply@,
            "error"@,
            "message"@,
            if recent.len() >= 20 {
                "Too many attempts, try again later"@
            } else {
                "Stream not found (wrong code, or the stream hasn't started yet)"@
            },
        );
    }
}

/// An exchange completes. Once a viewer has joined, the offer that it sends
/// reaches the host of its room under the viewer's ID and with its SDP, and
/// the answer that the host writes for that ID reaches the viewer's own
/// channel with the host's SDP. When the viewer's connection ends the host is
/// told, and nothing reaches the viewer any more.
pub proof fn law_viewer_and_host_exchange<C>(
    server: &mut Signaling<C>,
    code: &str,
    channel: C,
    now: u128,
    viewer_id: String,
    connection: u64,
    id: &str,
    offer_text: &str,
    offer_sdp: String,
    to_host: Option<Delivery<C>>,
    answer_sdp: &str,
    answer: String,
    answer_text: &str,
    to_viewer: Option<Delivery<C>>,
    left: &mut Signaling<C>,
    farewell: Option<Delivery<C>>,
    to_gone: Option<Delivery<C>>,
)
    requires
        call_ensures(
            Signaling::<C>::connect_viewer,
            (server, code, channel, now),
            ViewerConnect::Connected { viewer_id, connection },
        ),
        id@ == viewer_id@,
        call_ensures(parse_offer, (offer_text,), Some(offer_sdp)),
        call_ensures(
            Signaling::<C>::handle_viewer_message,
            (final(server), code, id, offer_text),
            to_host,
        ),
        call_ensures(crate::messages::answer_from_host, (id, answer_sdp), answer),
        answer_text@ == answer@,
        call_ensures(
            Signaling::<C>::handle_host_message,
            (final(server), code, answer_text),
            to_viewer,
        ),
        *old(left) == *final(server),
        call_ensures(Signaling::<C>::disconnect_viewer, (left, code, connection, id), farewell),
        call_ensures(
            Signaling::<C>::handle_host_message,
            (final(left), code, answer_text),
            to_gone,
        ),
    ensures
        to_host matches Some(d) && *d.to == old(server).rooms@[code@].host && member_in(
            d.text@,
            "type"@,
        ) == Some("offer"@) && member_in(d.text@, "viewer_id"@) == Some(viewer_id@) && member_in(
            d.text@,
            "sdp"@,
        ) == Some(offer_sdp@),
        to_viewer matches Some(d) && *d.to == channel && member_in(d.text@, "type"@) == Some(
            "answer"@,
        ) && member_in(d.text@, "sdp"@) == Some(answer_sdp@),
        farewell matches Some(d) && *d.to == old(server).rooms@[code@].host && member_in(
            d.text@,
            "type"@,
        ) == Some("viewer_left"@) && member_in(d.text@, "viewer_id"@) == Some(viewer_id@),
        to_gone is None,
{
    crate::messages::law_answer_reads_back(answer@, id@, answer_sdp@);
    reveal_strlit("type");
    reveal_strlit("viewer_id");
    assert("type"@.len() == 4 && "viewer_id"@.len() == 9);
    if let Some(d) = to_host {
        crate::messages::law_relayed_offer_reads_back(d.text@, id@, offer_sdp@);
    }
    if let Some(d) = to_viewer {
        crate::messages::law_relayed_answer_reads_back(d.text@, answer_sdp@);
    }
    if let Some(d) = farewell {
        crate::messages::law_notice_reads_back(d.text@, "viewer_left"@, "viewer_id"@, id@);
    }
}

/// Nothing else is relayed: a viewer's message that is no offer, a host's
/// message that is no answer, an answer to a viewer that is not in the room,
/// and anything under a code that has no room go nowhere.
pub proof fn law_nothing_else_is_relayed<C>(
    server: Signaling<C>,
    code: &str,
    id: &str,
    text: &str,
    offer: Option<String>,
    answer: Option<(String, String)>,
    to_host: Option<Delivery<C>>,
    to_viewer: Option<Delivery<C>>,
)
    requires
        call_ensures(parse_offer, (text,), offer),
        call_ensures(parse_answer, (text,), answer),
        call_ensures(Signaling::<C>::handle_viewer_message, (&server, code, id, text), to_host),
        call_ensures(Signaling::<C>::handle_host_message, (&server, code, text), to_viewer),
    ensures
        to_host is Some <==> offer is Some && server.rooms@.contains_key(code@),
        to_viewer is Some <==> answer is Some && server.rooms@.contains_key(code@)
            && server.rooms@[code@].viewers.contains_key(answer_viewer(answer)),
        to_host matches Some(d) ==> *d.to == server.rooms@[code@].host,
        to_viewer matches Some(d) ==> *d.to == server.rooms@[code@].viewers[answer_viewer(answer)],
{
}

/// The viewer that an answer names.
pub open spec fn answer_viewer(answer: Option<(String, String)>) -> Seq<char> {
    match answer {
        Some((viewer, _)) => viewer@,
        None => Seq::empty(),
    }
}

/// A host that disconnects takes its room with it and no other, so nothing is
/// relayed under its code any more, and another host can have it. A viewer
/// whose room is gone, even if another host has its code, leaves without a
/// word.
pub proof fn law_host_disconnects<C>(
    server: &mut Signaling<C>,
    code: &str,
    other: Seq<char>,
    id: &str,
    text: &str,
    to_host: Option<Delivery<C>>,
    to_viewer: Option<Delivery<C>>,
    late: &mut Signaling<C>,
    connection: u64,
    farewell: Option<Delivery<C>>,
)
    requires
        call_ensures(Signaling::<C>::disconnect_host, (server, code), ()),
        call_ensures(
            Signaling::<C>::handle_viewer_message,
            (final(server), code, id, text),
            to_host,
        ),
        call_ensures(Signaling::<C>::handle_host_message, (final(server), code, text), to_viewer),
        call_ensures(Signaling::<C>::disconnect_viewer, (late, code, connection, id), farewell),
        old(late).rooms@.contains_key(code@) ==> old(late).rooms@[code@].connection != connection,
    ensures
        to_host is None && to_viewer is None,
        !final(server).rooms@.contains_key(code@),
        other != code@ ==> (final(server).rooms@.contains_key(other) <==> old(server).rooms@.contains_key(other)),
        other != code@ && old(server).rooms@.contains_key(other) ==> final(server).rooms@[other]
            == old(server).rooms@[other],
        farewell is None,
        final(late).rooms@ == old(late).rooms@,
{
}

} // verus!
