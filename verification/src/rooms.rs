//! In-memory room state: signaling channels for a host and its viewers.
//! No media (RTP) is relayed here, only offer/answer text messages.
//!
//! A channel is a handle of any type `C`. The store never uses one: it says
//! which message goes to which channel, as a [`Delivery`].
use vstd::prelude::*;

use crate::roomcode::{generate, is_room_code, spelled_with, ALPHABET, ROOM_CODE_LEN};
use crate::table::Table;

verus! {

/// A message, and the channel it goes to.
pub struct Delivery<'a, C> {
    pub to: &'a C,
    pub text: String,
}

/// State for a single room: one host, zero or more viewers.
pub struct Room<C> {
    connection: u64,
    host: C,
    viewers: Table<C>,
}

/// What a [`Room`] holds.
#[verifier::ext_equal]
pub struct RoomView<C> {
    /// Which connection of a host the room belongs to.
    pub connection: u64,
    /// The host's channel.
    pub host: C,
    /// The viewers' channels, by viewer ID.
    pub viewers: Map<Seq<char>, C>,
}

impl<C> View for Room<C> {
    type V = RoomView<C>;

    closed spec fn view(&self) -> RoomView<C> {
        RoomView { connection: self.connection, host: self.host, viewers: self.viewers@ }
    }
}

impl<C> Room<C> {
    /// A room without viewers.
    pub fn new(connection: u64, host: C) -> (room: Self)
        ensures
            room@ == (RoomView { connection, host, viewers: Map::<Seq<char>, C>::empty() }),
    {
        Room { connection, host, viewers: Table::new() }
    }

    /// Which connection of a host the room belongs to.
    pub fn connection(&self) -> (connection: u64)
        ensures
            connection == self@.connection,
    {
        self.connection
    }

    /// Sends a message to the host.
    pub fn notify_host(&self, msg: String) -> (delivery: Delivery<'_, C>)
        ensures
            *delivery.to == self@.host,
            delivery.text == msg,
    {
        Delivery { to: &self.host, text: msg }
    }

    /// Puts a viewer's channel under its ID.
    pub fn add_viewer(&mut self, viewer_id: String, channel: C)
        ensures
            final(self)@ == (RoomView {
                viewers: old(self)@.viewers.insert(viewer_id@, channel),
                ..old(self)@
            }),
    {
        self.viewers.insert(viewer_id, channel);
    }

    /// Forgets a viewer.
    pub fn remove_viewer(&mut self, viewer_id: &str)
        ensures
            final(self)@ == (RoomView {
                viewers: old(self)@.viewers.remove(viewer_id@),
                ..old(self)@
            }),
    {
        self.viewers.remove(viewer_id);
    }

    /// Sends a message to a viewer; dropped if there is no such viewer.
    pub fn send_to_viewer(&self, viewer_id: &str, msg: String) -> (delivery: Option<
        Delivery<'_, C>,
    >)
        ensures
            match delivery {
                Some(d) => self@.viewers.contains_key(viewer_id@) && *d.to
                    == self@.viewers[viewer_id@] && d.text == msg,
                None => !self@.viewers.contains_key(viewer_id@),
            },
    {
        match self.viewers.get(viewer_id) {
            Some(to) => Some(Delivery { to, text: msg }),
            None => None,
        }
    }
}

/// The rooms that currently have a host, by room code.
pub struct RoomStore<C> {
    rooms: Table<Room<C>>,
}

impl<C> View for RoomStore<C> {
    type V = Map<Seq<char>, RoomView<C>>;

    closed spec fn view(&self) -> Map<Seq<char>, RoomView<C>> {
        Map::new(
            |code: Seq<char>| self.rooms@.contains_key(code),
            |code: Seq<char>| self.rooms@[code]@,
        )
    }
}

/// How many codes are drawn for a host before a free one is looked up.
pub const MAX_DRAWS: u64 = 1_000_000;

/// Whether every room code that can be drawn has a room.
pub open spec fn all_codes_taken<C>(rooms: Map<Seq<char>, RoomView<C>>) -> bool {
    forall|code: Seq<char>| #[trigger] is_room_code(code) ==> rooms.contains_key(code)
}

/// Whether a host gets the room code it asked for: it asked for one, and no
/// room has it.
pub open spec fn grants<C>(
    rooms: Map<Seq<char>, RoomView<C>>,
    requested_code: Option<&str>,
) -> bool {
    requested_code is Some && !rooms.contains_key(requested_code->0@)
}

impl<C> RoomStore<C> {
    /// A store without rooms.
    pub fn new() -> (store: Self)
        ensures
            store@ == Map::<Seq<char>, RoomView<C>>::empty(),
    {
        let store = RoomStore { rooms: Table::new() };
        assert(store@ =~= Map::<Seq<char>, RoomView<C>>::empty());
        store
    }

    /// Puts a fresh room under `code`.
    fn open(&mut self, code: String, connection: u64, host: C)
        ensures
            final(self)@ == old(self)@.insert(
                code@,
                RoomView { connection, host, viewers: Map::<Seq<char>, C>::empty() },
            ),
    {
        let room = Room::new(connection, host);
        self.rooms.insert(code, room);
        assert(self@ =~= old(self)@.insert(code@, room@));
    }

    /// Registers a host's connection as a room, given a code that was drawn
    /// for it. Reuses `requested_code` if given and currently free; otherwise
    /// takes the drawn code. If that is not free either, the host's channel
    /// is handed back.
    pub fn register_drawn(
        &mut self,
        requested_code: Option<&str>,
        drawn: String,
        connection: u64,
        host: C,
    ) -> (registered: Result<String, C>)
        ensures
            registered is Ok <==> grants(old(self)@, requested_code) || !old(self)@.contains_key(
                drawn@,
            ),
            match registered {
                Ok(code) => {
                    &&& code@ == if grants(old(self)@, requested_code) {
                        requested_code->0@
                    } else {
                        drawn@
                    }
                    &&& final(self)@ == old(self)@.insert(
                        code@,
                        RoomView { connection, host, viewers: Map::<Seq<char>, C>::empty() },
                    )
                },
                Err(channel) => channel == host && final(self)@ == old(self)@,
            },
    {
        if let Some(code) = requested_code {
            if !self.rooms.contains_key(code) {
                self.open(code.to_owned(), connection, host);
                return Ok(code.to_owned());
            }
        }
        if self.rooms.contains_key(drawn.as_str()) {
            return Err(host);
        }
        self.open(drawn.clone(), connection, host);
        Ok(drawn)
    }

    /// Looks through the room codes that start with `prefix` for a free one.
    fn find_free(&self, prefix: &str, left: usize) -> (free: Option<String>)
        requires
            spelled_with(prefix@, ALPHABET@, prefix@.len()),
            prefix@.len() + left == ROOM_CODE_LEN,
        ensures
            match free {
                Some(code) => is_room_code(code@) && !self@.contains_key(code@),
                None => forall|code: Seq<char>| #[trigger]
                    is_room_code(code) && prefix@.is_prefix_of(code) ==> self@.contains_key(code),
            },
        decreases left,
    {
        if left == 0 {
            if self.rooms.contains_key(prefix) {
                proof {
                    assert forall|code: Seq<char>| #[trigger]
                        is_room_code(code) && prefix@.is_prefix_of(
                            code,
                        ) implies self@.contains_key(code) by {
                        assert(code =~= prefix@);
                    }
                }
                return None;
            }
            return Some(prefix.to_owned());
        }
        let letters: usize = ALPHABET.unicode_len();
        let mut i: usize = 0;
        while i < letters
            invariant
                left > 0,
                letters == ALPHABET@.len(),
                i <= letters,
                spelled_with(prefix@, ALPHABET@, prefix@.len()),
                prefix@.len() + left == ROOM_CODE_LEN,
                forall|code: Seq<char>, j: int|
                    #![trigger is_room_code(code), ALPHABET@[j]]
                    is_room_code(code) && prefix@.is_prefix_of(code) && 0 <= j < i
                        && code[prefix@.len() as int] == ALPHABET@[j] ==> self@.contains_key(code),
            decreases letters - i,
        {
            let mut longer = prefix.to_owned();
            let letter = ALPHABET.get_char(i);
            longer.push(letter);
            proof {
                assert forall|k: int| 0 <= k < longer@.len() implies ALPHABET@.contains(
                    #[trigger] longer@[k],
                ) by {
                    if k < prefix@.len() {
                        assert(longer@[k] == prefix@[k]);
                    } else {
                        assert(longer@[k] == ALPHABET@[i as int]);
                    }
                }
            }
            if let Some(code) = self.find_free(longer.as_str(), left - 1) {
                return Some(code);
            }
            proof {
                assert forall|code: Seq<char>|
                    #![trigger is_room_code(code)]
                    is_room_code(code) && prefix@.is_prefix_of(code) && code[prefix@.len() as int]
                        == letter implies self@.contains_key(code) by {
                    assert(longer@ =~= code.take(longer@.len() as int));
                    assert(longer@.is_prefix_of(code));
                }
            }
            i = i + 1;
        }
        proof {
            assert forall|code: Seq<char>| #[trigger]
                is_room_code(code) && prefix@.is_prefix_of(code) implies self@.contains_key(
                code,
            ) by {
                let letter = code[prefix@.len() as int];
                assert(ALPHABET@.contains(letter));
                let j = choose|j: int| 0 <= j < ALPHABET@.len() && ALPHABET@[j] == letter;
                assert(ALPHABET@[j] == letter);
            }
        }
        None
    }

    /// Registers a host's WebSocket connection as a room. Reuses
    /// `requested_code` if given and currently free (so a reconnecting
    /// host can keep the same room code); otherwise generates a new one.
    ///
    /// Codes are drawn until one is free. After many draws in vain, which
    /// takes a store that is all but full, the first free code is looked up
    /// instead. Only if every room code there is has a room is the host's
    /// channel handed back.
    pub fn register_host(
        &mut self,
        requested_code: Option<&str>,
        connection: u64,
        host: C,
    ) -> (registered: Result<String, C>)
        ensures
            registered is Ok <==> grants(old(self)@, requested_code) || !all_codes_taken(old(self)@),
            match registered {
                Ok(code) => {
                    &&& !old(self)@.contains_key(code@)
                    &&& grants(old(self)@, requested_code) ==> code@ == requested_code->0@
                    &&& !grants(old(self)@, requested_code) ==> is_room_code(code@)
                    &&& final(self)@ == old(self)@.insert(
                        code@,
                        RoomView { connection, host, viewers: Map::<Seq<char>, C>::empty() },
                    )
                },
                Err(channel) => channel == host && final(self)@ == old(self)@,
            },
    {
        if let Some(code) = requested_code {
            if !self.rooms.contains_key(code) {
                self.open(code.to_owned(), connection, host);
                return Ok(code.to_owned());
            }
        }
        let mut channel = host;
        let mut draws: u64 = 0;
        while draws < MAX_DRAWS
            invariant
                self@ == old(self)@,
                channel == host,
                !grants(old(self)@, requested_code),
            decreases MAX_DRAWS - draws,
        {
            match self.register_drawn(requested_code, generate(), connection, channel) {
                Ok(code) => {
                    return Ok(code);
                },
                Err(back) => {
                    channel = back;
                },
            }
            draws = draws + 1;
        }
        proof {
            reveal_strlit("");
        }
        match self.find_free("", ROOM_CODE_LEN) {
            Some(code) => self.register_drawn(requested_code, code, connection, channel),
            None => {
                proof {
                    assert forall|code: Seq<char>| #[trigger] is_room_code(
                        code,
                    ) implies old(self)@.contains_key(code) by {
                        assert(""@.is_prefix_of(code));
                    }
                }
                Err(channel)
            },
        }
    }

    /// The room under a code.
    pub fn get(&self, room_code: &str) -> (room: Option<&Room<C>>)
        ensures
            match room {
                Some(r) => self@.contains_key(room_code@) && r@ == self@[room_code@],
                None => !self@.contains_key(room_code@),
            },
    {
        self.rooms.get(room_code)
    }

    /// Puts a viewer into the room under a code; nothing happens if there is
    /// no such room.
    pub fn add_viewer(&mut self, room_code: &str, viewer_id: String, channel: C)
        ensures
            final(self)@ == if old(self)@.contains_key(room_code@) {
                let room = old(self)@[room_code@];
                old(self)@.insert(
                    room_code@,
                    RoomView { viewers: room.viewers.insert(viewer_id@, channel), ..room },
                )
            } else {
                old(self)@
            },
    {
        match self.rooms.remove(room_code) {
            Some(mut room) => {
                room.add_viewer(viewer_id, channel);
                self.rooms.insert(room_code.to_owned(), room);
                assert(self@ =~= old(self)@.insert(room_code@, room@));
            },
            None => {
                assert(self@ =~= old(self)@);
            },
        }
    }

    /// Takes a viewer out of the room under a code; nothing happens if there
    /// is no such room.
    pub fn remove_viewer(&mut self, room_code: &str, viewer_id: &str)
        ensures
            final(self)@ == if old(self)@.contains_key(room_code@) {
                let room = old(self)@[room_code@];
                old(self)@.insert(
                    room_code@,
                    RoomView { viewers: room.viewers.remove(viewer_id@), ..room },
                )
            } else {
                old(self)@
            },
    {
        match self.rooms.remove(room_code) {
            Some(mut room) => {
                room.remove_viewer(viewer_id);
                self.rooms.insert(room_code.to_owned(), room);
                assert(self@ =~= old(self)@.insert(room_code@, room@));
            },
            None => {
                assert(self@ =~= old(self)@);
            },
        }
    }

    /// Removes a room when its host disconnects.
    pub fn remove_room(&mut self, room_code: &str)
        ensures
            final(self)@ == old(self)@.remove(room_code@),
    {
        self.rooms.remove(room_code);
        assert(self@ =~= old(self)@.remove(room_code@));
    }
}

// ---------------------------------------------------------------------
// Laws
// ---------------------------------------------------------------------

/// A room sends what it is given: to its host, and to the viewer that is
/// named, if that viewer is there. A viewer is there once it was added and
/// until it is removed.
pub proof fn law_room_delivers<C>(
    connection: u64,
    host: C,
    room: Room<C>,
    joined: &mut Room<C>,
    viewer_id: String,
    channel: C,
    left: &mut Room<C>,
    id: &str,
    msg: String,
    to_host: Delivery<C>,
    to_viewer: Option<Delivery<C>>,
    to_gone: Option<Delivery<C>>,
    to_stranger: Option<Delivery<C>>,
)
    requires
        call_ensures(Room::<C>::new, (connection, host), room),
        call_ensures(Room::<C>::send_to_viewer, (&room, id, msg), to_stranger),
        *old(joined) == room,
        call_ensures(Room::<C>::add_viewer, (joined, viewer_id, channel), ()),
        id@ == viewer_id@,
        call_ensures(Room::<C>::notify_host, (final(joined), msg), to_host),
        call_ensures(Room::<C>::send_to_viewer, (final(joined), id, msg), to_viewer),
        *old(left) == *final(joined),
        call_ensures(Room::<C>::remove_viewer, (left, id), ()),
        call_ensures(Room::<C>::send_to_viewer, (final(left), id, msg), to_gone),
    ensures
        *to_host.to == host && to_host.text@ == msg@,
        to_viewer matches Some(d) && *d.to == channel && d.text@ == msg@,
        to_gone is None,
        to_stranger is None,
        final(left)@.host == host && final(left)@.connection == connection,
{
}

/// Viewers of a room do not get in each other's way: adding or removing one
/// leaves the others where they were.
pub proof fn law_other_viewers_stay<C>(
    joined: &mut Room<C>,
    viewer_id: String,
    channel: C,
    left: &mut Room<C>,
    leaving: &str,
    other: Seq<char>,
)
    requires
        call_ensures(Room::<C>::add_viewer, (joined, viewer_id, channel), ()),
        call_ensures(Room::<C>::remove_viewer, (left, leaving), ()),
        other != viewer_id@,
        other != leaving@,
    ensures
        final(joined)@.viewers.contains_key(other) <==> old(joined)@.viewers.contains_key(other),
        old(joined)@.viewers.contains_key(other) ==> final(joined)@.viewers[other] == old(joined)@.viewers[other],
        final(left)@.viewers.contains_key(other) <==> old(left)@.viewers.contains_key(other),
        old(left)@.viewers.contains_key(other) ==> final(left)@.viewers[other] == old(left)@.viewers[other],
{
}

/// A host that is registered is found under its code, with its own channel
/// and no viewers, and no other room is touched. It gets the code it asks for
/// exactly if no room has it; otherwise it gets one of its own that no room
/// had. Only when every code is taken is it handed back.
pub proof fn law_host_gets_a_room_of_its_own<C>(
    store: &mut RoomStore<C>,
    requested_code: Option<&str>,
    connection: u64,
    host: C,
    registered: Result<String, C>,
    sought: &str,
    before: Option<&Room<C>>,
    after: Option<&Room<C>>,
)
    requires
        call_ensures(RoomStore::<C>::get, (old(store), sought), before),
        call_ensures(
            RoomStore::<C>::register_host,
            (store, requested_code, connection, host),
            registered,
        ),
        call_ensures(RoomStore::<C>::get, (final(store), sought), after),
    ensures
        registered matches Ok(code) ==> {
            &&& sought@ == code@ ==> before is None && after is Some && after->0@.host == host
                && after->0@.connection == connection && after->0@.viewers.dom().is_empty()
            &&& sought@ != code@ ==> (before is Some <==> after is Some)
            &&& sought@ != code@ && before is Some ==> after->0@ == before->0@
            &&& requested_code is Some && sought@ == requested_code->0@ && before is None
                ==> code@ == requested_code->0@
            &&& requested_code is Some && sought@ == requested_code->0@ && before is Some
                ==> code@ != requested_code->0@
            &&& code@.len() == 6 || requested_code is Some && code@ == requested_code->0@
        },
        registered matches Err(channel) ==> channel == host && (before is Some <==> after is Some)
            && (requested_code is Some && sought@ == requested_code->0@ ==> before is Some)
            && (is_room_code(sought@) ==> before is Some),
{
}

/// Taking a code that was drawn goes the same way, except that a drawn code
/// that is taken hands the host back.
pub proof fn law_drawn_code_is_taken_if_free<C>(
    store: &mut RoomStore<C>,
    requested_code: Option<&str>,
    drawn: String,
    connection: u64,
    host: C,
    registered: Result<String, C>,
)
    requires
        call_ensures(
            RoomStore::<C>::register_drawn,
            (store, requested_code, drawn, connection, host),
            registered,
        ),
    ensures
        requested_code is Some && !old(store)@.contains_key(requested_code->0@) ==> (registered
            matches Ok(code) && code@ == requested_code->0@),
        requested_code is None && !old(store)@.contains_key(drawn@) ==> (registered
            matches Ok(code) && code@ == drawn@),
        requested_code is Some && old(store)@.contains_key(requested_code->0@)
            && !old(store)@.contains_key(drawn@) ==> (registered matches Ok(code) && code@
            == drawn@),
        registered matches Ok(code) ==> !old(store)@.contains_key(code@) && final(store)@.contains_key(code@) && final(store)@[code@].host == host && final(store)@[code@].connection
            == connection,
        registered matches Err(channel) ==> channel == host && final(store)@ == old(store)@,
{
}

/// A viewer joins and leaves the room under the code that it gave, and no
/// other; a room that was removed is gone, with its viewers, and the others
/// stay; a new store has none.
pub proof fn law_rooms_in_a_store<C>(
    joined: &mut RoomStore<C>,
    left: &mut RoomStore<C>,
    removed: &mut RoomStore<C>,
    code: &str,
    viewer_id: String,
    channel: C,
    leaving: &str,
    other: Seq<char>,
    fresh: RoomStore<C>,
)
    requires
        call_ensures(RoomStore::<C>::add_viewer, (joined, code, viewer_id, channel), ()),
        call_ensures(RoomStore::<C>::remove_viewer, (left, code, leaving), ()),
        call_ensures(RoomStore::<C>::remove_room, (removed, code), ()),
        call_ensures(RoomStore::<C>::new, (), fresh),
        other != code@,
    ensures
        old(joined)@.contains_key(code@) ==> {
            let room = final(joined)@[code@];
            &&& final(joined)@.contains_key(code@)
            &&& room.viewers.contains_key(viewer_id@) && room.viewers[viewer_id@] == channel
            &&& room.host == old(joined)@[code@].host
            &&& room.connection == old(joined)@[code@].connection
        },
        !old(joined)@.contains_key(code@) ==> !final(joined)@.contains_key(code@),
        old(left)@.contains_key(code@) ==> {
            let room = final(left)@[code@];
            &&& final(left)@.contains_key(code@)
            &&& !room.viewers.contains_key(leaving@)
            &&& room.host == old(left)@[code@].host
            &&& room.connection == old(left)@[code@].connection
        },
        !final(removed)@.contains_key(code@),
        !fresh@.contains_key(code@),
        final(joined)@.contains_key(other) <==> old(joined)@.contains_key(other),
        final(left)@.contains_key(other) <==> old(left)@.contains_key(other),
        final(removed)@.contains_key(other) <==> old(removed)@.contains_key(other),
        old(joined)@.contains_key(other) ==> final(joined)@[other] == old(joined)@[other],
        old(left)@.contains_key(other) ==> final(left)@[other] == old(left)@[other],
        old(removed)@.contains_key(other) ==> final(removed)@[other] == old(removed)@[other],
{
}

/// Which connection of a host a room belongs to can be asked.
pub proof fn law_connection_of_a_room<C>(connection: u64, host: C, room: Room<C>, asked: u64)
    requires
        call_ensures(Room::<C>::new, (connection, host), room),
        call_ensures(Room::<C>::connection, (&room,), asked),
    ensures
        asked == connection,
{
}

} // verus!
