//! Whom the encoded stream goes to.
//!
//! The stream is encoded once and shared: every connected viewer gets the
//! same frames. Each viewer wants a bitrate of its own, and the lowest of
//! them is what the stream is encoded at. A viewer that joins or loses its
//! picture asks for a keyframe.
use vstd::prelude::*;

use crate::bitrate::{
    after_report, floor_bps, is_target, law_target_is_unique, shared_target, RateView, ViewerRate,
    MIN_BITRATE_BPS,
};
use crate::media::IceServer;
use crate::table::Table;
use crate::upnp::PortForward;

verus! {

// ---------------------------------------------------------------------
// What the sender knows
// ---------------------------------------------------------------------

/// What a [`FrameSender`] knows. `T` is a viewer's video track.
#[verifier::ext_equal]
pub struct SenderView<T> {
    /// The viewers that get the stream, by their IDs.
    pub viewers: Map<Seq<char>, T>,
    /// The bitrates that viewers want, by their IDs.
    pub desired: Map<Seq<char>, u32>,
    /// Whether a viewer waits for a keyframe.
    pub force_idr: bool,
    /// The bitrate to encode at.
    pub target: u32,
    /// The bitrate the stream started with.
    pub max: u32,
    /// The servers for ICE candidate gathering.
    pub ice_servers: Seq<IceServer>,
    /// The ports mapped through the router.
    pub port_forward: Option<PortForward>,
}

/// The bitrate to encode at, given what the viewers want.
pub open spec fn target_of(desired: Map<Seq<char>, u32>, max: u32) -> u32 {
    choose|target: u32| is_target(desired, max, target)
}

proof fn lemma_target(desired: Map<Seq<char>, u32>, max: u32, target: u32)
    requires
        is_target(desired, max, target),
    ensures
        target == target_of(desired, max),
{
    law_target_is_unique(desired, max, target, target_of(desired, max));
}

/// The target is the lowest bitrate that any viewer asked for, or what the
/// stream started with if none has asked; and what viewers ask for is never
/// below the floor nor above the start.
pub open spec fn in_step<T>(s: SenderView<T>) -> bool {
    &&& is_target(s.desired, s.max, s.target)
    &&& s.target <= s.max
    &&& forall|viewer: Seq<char>| #[trigger]
        s.desired.contains_key(viewer) ==> floor_bps(s.max) <= s.desired[viewer] <= s.max
}

/// After a keyframe has been asked for.
pub open spec fn after_idr_request<T>(s: SenderView<T>) -> SenderView<T> {
    SenderView { force_idr: true, ..s }
}

/// After a viewer's connection has been set up.
pub open spec fn after_connect<T>(s: SenderView<T>, viewer: Seq<char>, track: T) -> SenderView<T> {
    SenderView { viewers: s.viewers.insert(viewer, track), force_idr: true, ..s }
}

/// After a viewer has left.
pub open spec fn after_leave<T>(s: SenderView<T>, viewer: Seq<char>) -> SenderView<T> {
    SenderView {
        viewers: s.viewers.remove(viewer),
        desired: s.desired.remove(viewer),
        target: target_of(s.desired.remove(viewer), s.max),
        ..s
    }
}

/// After a viewer has come to want a bitrate.
pub open spec fn after_wish<T>(s: SenderView<T>, viewer: Seq<char>, bitrate: u32) -> SenderView<T> {
    SenderView {
        desired: s.desired.insert(viewer, bitrate),
        target: target_of(s.desired.insert(viewer, bitrate), s.max),
        ..s
    }
}

/// After some receiver reports from a viewer, given by their fractions lost:
/// each moves the viewer's rate, and what the rate came to is what the
/// viewer wants.
pub open spec fn after_reports<T>(
    s: SenderView<T>,
    rate: RateView,
    viewer: Seq<char>,
    reports: Seq<u8>,
) -> (SenderView<T>, RateView)
    decreases reports.len(),
{
    if reports.len() == 0 {
        (s, rate)
    } else {
        let (before, slower) = after_reports(s, rate, viewer, reports.drop_last());
        let next = after_report(slower, reports.last());
        (after_wish(before, viewer, next.current), next)
    }
}

/// A packet of feedback from a viewer.
pub enum RtcpPacket {
    PictureLossIndication,
    FullIntraRequest,
    /// The fractions lost, in 256ths, of the reports in the packet.
    ReceiverReport { fractions_lost: Vec<u8> },
    Other,
}

/// After a packet of feedback from a viewer.
pub open spec fn after_packet<T>(
    s: SenderView<T>,
    rate: RateView,
    viewer: Seq<char>,
    packet: RtcpPacket,
) -> (SenderView<T>, RateView) {
    match packet {
        RtcpPacket::PictureLossIndication => (after_idr_request(s), rate),
        RtcpPacket::FullIntraRequest => (after_idr_request(s), rate),
        RtcpPacket::ReceiverReport { fractions_lost } => after_reports(
            s,
            rate,
            viewer,
            fractions_lost@,
        ),
        RtcpPacket::Other => (s, rate),
    }
}

// ---------------------------------------------------------------------
// The sender
// ---------------------------------------------------------------------

/// What the viewers want, and what they get.
struct Rates {
    /// Each viewer's current desired bitrate, used to compute the shared
    /// target below.
    desired: Table<u32>,
    /// Current target bitrate, kept in sync with the minimum of all viewers'
    /// desired bitrates.
    target: u32,
}

impl Rates {
    /// No viewer has asked for anything.
    fn none(max: u32) -> (rates: Self)
        ensures
            rates.desired@ == Map::<Seq<char>, u32>::empty(),
            rates.target == max,
            is_target(rates.desired@, max, rates.target),
    {
        let desired: Table<u32> = Table::new();
        assert(desired@.dom() =~= Set::<Seq<char>>::empty());
        Rates { desired, target: max }
    }

    /// Brings the target in line with what the viewers want.
    fn sync(&mut self, max: u32)
        ensures
            final(self).desired@ == old(self).desired@,
            final(self).target == target_of(old(self).desired@, max),
            is_target(final(self).desired@, max, final(self).target),
    {
        self.target = shared_target(&self.desired, max);
        proof {
            lemma_target(self.desired@, max, self.target);
        }
    }
}

/// Keeps track of the viewers of one stream.
pub struct FrameSender<T> {
    viewers: Table<T>,
    rates: Rates,
    force_idr: bool,
    max_bitrate_bps: u32,
    ice_servers: Vec<IceServer>,
    /// The port mapping, if one could be set up: lets viewers on a different
    /// network than the host connect without a relay.
    port_forward: Option<PortForward>,
}

/// One viewer's copy of an encoded frame.
pub struct Transmission<'a, T> {
    pub track: &'a T,
    pub data: &'a Vec<u8>,
    pub duration_nanos: u64,
}

impl<T> View for FrameSender<T> {
    type V = SenderView<T>;

    closed spec fn view(&self) -> SenderView<T> {
        SenderView {
            viewers: self.viewers@,
            desired: self.rates.desired@,
            force_idr: self.force_idr,
            target: self.rates.target,
            max: self.max_bitrate_bps,
            ice_servers: self.ice_servers@,
            port_forward: self.port_forward,
        }
    }
}

impl<T> FrameSender<T> {
    #[verifier::type_invariant]
    closed spec fn synced(&self) -> bool {
        in_step(self@)
    }

    /// The IDs of the viewers, in the order in which they are served.
    pub closed spec fn order(&self) -> Seq<Seq<char>> {
        self.viewers.order()
    }

    /// A sender without viewers, whose stream starts out at `bitrate_bps`.
    pub fn new(
        ice_servers: Vec<IceServer>,
        bitrate_bps: u32,
        port_forward: Option<PortForward>,
    ) -> (sender: Self)
        ensures
            sender@ == (SenderView {
                viewers: Map::<Seq<char>, T>::empty(),
                desired: Map::<Seq<char>, u32>::empty(),
                force_idr: false,
                target: bitrate_bps,
                max: bitrate_bps,
                ice_servers: ice_servers@,
                port_forward,
            }),
            in_step(sender@),
    {
        FrameSender {
            viewers: Table::new(),
            rates: Rates::none(bitrate_bps),
            force_idr: false,
            max_bitrate_bps: bitrate_bps,
            ice_servers,
            port_forward,
        }
    }

    /// Sends the same encoded frame to every connected viewer: one copy for
    /// each, none twice. Nothing if there are no viewers.
    pub fn send<'a>(&'a self, data: &'a Vec<u8>, duration_nanos: u64) -> (out: Vec<
        Transmission<'a, T>,
    >)
        ensures
            self.order().no_duplicates(),
            self.order().to_set() == self@.viewers.dom(),
            out@.len() == self.order().len(),
            forall|i: int|
                0 <= i < out@.len() ==> *(#[trigger] out@[i]).track == self@.viewers[self.order()[i]]
                    && out@[i].data == data && out@[i].duration_nanos == duration_nanos,
    {
        let mut out: Vec<Transmission<'a, T>> = Vec::new();
        let n: usize = self.viewers.len();
        let mut i: usize = 0;
        while i < n
            invariant
                i <= n,
                n == self.order().len(),
                out@.len() == i,
                forall|j: int|
                    0 <= j < i ==> *(#[trigger] out@[j]).track
                        == self@.viewers[self.order()[j]] && out@[j].data == data
                        && out@[j].duration_nanos == duration_nanos,
            decreases n - i,
        {
            out.push(Transmission { track: self.viewers.value_at(i), data, duration_nanos });
            i = i + 1;
        }
        out
    }

    /// Checks (and clears) whether the next frame should be a keyframe, e.g.
    /// because a new viewer just joined.
    pub fn take_force_idr(&mut self) -> (force: bool)
        ensures
            force == old(self)@.force_idr,
            final(self)@ == (SenderView { force_idr: false, ..old(self)@ }),
            in_step(final(self)@),
    {
        proof {
            use_type_invariant(&*self);
        }
        let force = self.force_idr;
        self.force_idr = false;
        force
    }

    /// The bitrate to encode at.
    pub fn target_bitrate_bps(&self) -> (target: u32)
        ensures
            target == self@.target,
            in_step(self@),
    {
        proof {
            use_type_invariant(self);
        }
        self.rates.target
    }

    /// The router's public IP if a port mapping was set up: `None` means
    /// viewers outside the host's own network only connect if plain STUN
    /// happens to succeed.
    pub fn port_forward_ip(&self) -> (ip: Option<String>)
        ensures
            match ip {
                Some(text) => self@.port_forward is Some && text@
                    == self@.port_forward->0.external_ip@,
                None => self@.port_forward is None,
            },
    {
        match &self.port_forward {
            Some(forward) => Some(forward.external_ip.clone()),
            None => None,
        }
    }

    /// The ports mapped through the router.
    pub fn port_forward(&self) -> (forward: Option<&PortForward>)
        ensures
            match forward {
                Some(f) => self@.port_forward == Some(*f),
                None => self@.port_forward is None,
            },
    {
        match &self.port_forward {
            Some(forward) => Some(forward),
            None => None,
        }
    }

    /// The servers for ICE candidate gathering.
    pub fn ice_servers(&self) -> (servers: &Vec<IceServer>)
        ensures
            servers@ == self@.ice_servers,
    {
        &self.ice_servers
    }

    /// The bitrate adaptation of a viewer that connects now.
    pub fn new_viewer_rate(&self) -> (rate: ViewerRate)
        ensures
            rate@ == (RateView { good_streak: 0, current: self@.max, max: self@.max }),
    {
        ViewerRate::new(self.max_bitrate_bps)
    }

    /// Adds a viewer whose connection has been set up, and asks for a
    /// keyframe.
    pub fn viewer_connected(&mut self, viewer_id: String, track: T)
        ensures
            final(self)@ == after_connect(old(self)@, viewer_id@, track),
            in_step(final(self)@),
    {
        proof {
            use_type_invariant(&*self);
        }
        let mut viewers: Table<T> = Table::new();
        std::mem::swap(&mut viewers, &mut self.viewers);
        viewers.insert(viewer_id, track);
        self.viewers = viewers;
        self.force_idr = true;
    }

    /// Makes room for a new viewer where there can only be one: nobody wants
    /// anything any more, so the stream goes back to what it started with.
    pub fn clear_viewers(&mut self)
        ensures
            final(self)@ == (SenderView {
                viewers: Map::<Seq<char>, T>::empty(),
                desired: Map::<Seq<char>, u32>::empty(),
                target: old(self)@.max,
                ..old(self)@
            }),
            in_step(final(self)@),
    {
        proof {
            use_type_invariant(&*self);
        }
        self.viewers = Table::new();
        self.rates = Rates::none(self.max_bitrate_bps);
    }

    /// Takes out a viewer that has left, and what it wanted.
    pub fn remove_viewer(&mut self, viewer_id: &str)
        ensures
            final(self)@ == after_leave(old(self)@, viewer_id@),
            in_step(final(self)@),
    {
        proof {
            use_type_invariant(&*self);
        }
        let mut viewers: Table<T> = Table::new();
        std::mem::swap(&mut viewers, &mut self.viewers);
        viewers.remove(viewer_id);
        self.viewers = viewers;
        let mut rates = Rates::none(self.max_bitrate_bps);
        std::mem::swap(&mut rates, &mut self.rates);
        rates.desired.remove(viewer_id);
        rates.sync(self.max_bitrate_bps);
        self.rates = rates;
    }

    /// Takes note of the bitrate that a viewer wants.
    fn set_desired(&mut self, viewer_id: &str, bitrate: u32)
        requires
            floor_bps(old(self)@.max) <= bitrate <= old(self)@.max,
        ensures
            final(self)@ == after_wish(old(self)@, viewer_id@, bitrate),
            in_step(final(self)@),
    {
        proof {
            use_type_invariant(&*self);
        }
        let mut rates = Rates::none(self.max_bitrate_bps);
        std::mem::swap(&mut rates, &mut self.rates);
        rates.desired.insert(viewer_id.to_owned(), bitrate);
        rates.sync(self.max_bitrate_bps);
        self.rates = rates;
    }

    /// Takes note of a packet of feedback from a viewer.
    pub fn on_rtcp(&mut self, viewer_id: &str, rate: &mut ViewerRate, packet: &RtcpPacket)
        requires
            old(rate)@.max == old(self)@.max,
            packet is ReceiverReport ==> old(self)@.max >= MIN_BITRATE_BPS,
        ensures
            (final(self)@, final(rate)@) == after_packet(
                old(self)@,
                old(rate)@,
                viewer_id@,
                *packet,
            ),
            in_step(final(self)@),
    {
        proof {
            use_type_invariant(&*self);
        }
        match packet {
            RtcpPacket::PictureLossIndication => {
                self.force_idr = true;
            },
            RtcpPacket::FullIntraRequest => {
                self.force_idr = true;
            },
            RtcpPacket::ReceiverReport { fractions_lost } => {
                let mut i: usize = 0;
                while i < fractions_lost.len()
                    invariant
                        i <= fractions_lost@.len(),
                        self@.max >= MIN_BITRATE_BPS,
                        rate@.max == self@.max,
                        in_step(self@),
                        (self@, rate@) == after_reports(
                            old(self)@,
                            old(rate)@,
                            viewer_id@,
                            fractions_lost@.take(i as int),
                        ),
                    decreases fractions_lost@.len() - i,
                {
                    proof {
                        assert(fractions_lost@.take(i + 1).drop_last() =~= fractions_lost@.take(
                            i as int,
                        ));
                    }
                    let desired: u32 = rate.on_report(fractions_lost[i]);
                    self.set_desired(viewer_id, desired);
                    i = i + 1;
                }
                assert(fractions_lost@.take(fractions_lost@.len() as int) =~= fractions_lost@);
            },
            RtcpPacket::Other => {},
        }
    }
}

// ---------------------------------------------------------------------
// Laws
// ---------------------------------------------------------------------

/// A viewer that connects gets the stream, and the next frame is a keyframe.
pub proof fn law_joining_viewer_gets_a_keyframe<T>(s: SenderView<T>, viewer: Seq<char>, track: T)
    ensures
        after_connect(s, viewer, track).viewers.contains_key(viewer),
        after_connect(s, viewer, track).viewers[viewer] == track,
        after_connect(s, viewer, track).force_idr,
{
}

/// A viewer that left gets nothing more and holds nobody back: the target is
/// the lowest that the others want, never lower than before. The others are
/// served as before.
pub proof fn law_leaving_viewer_is_forgotten<T>(s: SenderView<T>, viewer: Seq<char>)
    requires
        in_step(s),
    ensures
        ({
            let after = after_leave(s, viewer);
            &&& in_step(after)
            &&& is_target(s.desired.remove(viewer), s.max, after.target)
            &&& !after.viewers.contains_key(viewer)
            &&& forall|other: Seq<char>| #[trigger]
                s.viewers.contains_key(other) && other != viewer ==> after.viewers.contains_key(
                    other,
                ) && after.viewers[other] == s.viewers[other]
            &&& after.target >= s.target
        }),
{
    let rest = s.desired.remove(viewer);
    lemma_target_exists(rest, s.max);
    let target = target_of(rest, s.max);
    assert(is_target(rest, s.max, target));
    if !s.desired.dom().is_empty() && !rest.dom().is_empty() {
        let other = choose|other: Seq<char>| #[trigger]
            rest.contains_key(other) && rest[other] == target;
        assert(s.desired.contains_key(other));
    }
}

/// Whatever the viewers want, there is a bitrate to encode at.
proof fn lemma_target_exists(desired: Map<Seq<char>, u32>, max: u32)
    ensures
        exists|target: u32| is_target(desired, max, target),
{
    if desired.dom().is_empty() {
        assert(is_target(desired, max, max));
    } else {
        let first = choose|viewer: Seq<char>| #[trigger] desired.dom().contains(viewer);
        assert(desired.contains_key(first));
        lemma_least(desired, max, first);
    }
}

/// From any viewer's wish, a lowest one can be reached.
proof fn lemma_least(desired: Map<Seq<char>, u32>, max: u32, from: Seq<char>)
    requires
        desired.contains_key(from),
    ensures
        exists|target: u32| is_target(desired, max, target),
    decreases desired[from],
{
    if forall|viewer: Seq<char>| #[trigger]
        desired.contains_key(viewer) ==> desired[from] <= desired[viewer] {
        assert(desired.dom().contains(from));
        assert(is_target(desired, max, desired[from]));
    } else {
        let lower = choose|viewer: Seq<char>| #[trigger]
            desired.contains_key(viewer) && desired[viewer] < desired[from];
        lemma_least(desired, max, lower);
    }
}

proof fn lemma_reports<T>(
    s: SenderView<T>,
    rate: RateView,
    viewer: Seq<char>,
    reports: Seq<u8>,
)
    ensures
        ({
            let (after, slower) = after_reports(s, rate, viewer, reports);
            &&& after.force_idr == s.force_idr
            &&& after.viewers == s.viewers
            &&& after.max == s.max
            &&& after.ice_servers == s.ice_servers
            &&& after.port_forward == s.port_forward
            &&& slower.max == rate.max
            &&& reports.len() == 0 ==> after == s && slower == rate
            &&& reports.len() > 0 ==> after.desired == s.desired.insert(viewer, slower.current)
        }),
    decreases reports.len(),
{
    if reports.len() > 0 {
        lemma_reports(s, rate, viewer, reports.drop_last());
        let (before, slower) = after_reports(s, rate, viewer, reports.drop_last());
        let next = after_report(slower, reports.last());
        assert(before.desired.insert(viewer, next.current) =~= s.desired.insert(
            viewer,
            next.current,
        ));
    }
}

/// After a picture loss indication or a full intra request from any viewer a
/// keyframe is pending, whatever was pending before. Other feedback asks for
/// none, and takes none away.
pub proof fn law_feedback_asks_for_keyframes<T>(
    sender: &mut FrameSender<T>,
    viewer_id: &str,
    rate: &mut ViewerRate,
    packet: &RtcpPacket,
)
    requires
        call_ensures(FrameSender::<T>::on_rtcp, (sender, viewer_id, rate, packet), ()),
    ensures
        packet is PictureLossIndication ==> final(sender)@.force_idr,
        packet is FullIntraRequest ==> final(sender)@.force_idr,
        old(sender)@.force_idr ==> final(sender)@.force_idr,
        packet is ReceiverReport || packet is Other ==> final(sender)@.force_idr == old(sender)@.force_idr,
{
    if let RtcpPacket::ReceiverReport { fractions_lost } = packet {
        lemma_reports(old(sender)@, old(rate)@, viewer_id@, fractions_lost@);
    }
}

/// A viewer that joins makes a keyframe pending; one that leaves, or all of
/// them leaving, takes none away and asks for none.
pub proof fn law_viewers_come_and_go<T>(
    joined: &mut FrameSender<T>,
    viewer_id: String,
    track: T,
    left: &mut FrameSender<T>,
    leaving: &str,
    cleared: &mut FrameSender<T>,
)
    requires
        call_ensures(FrameSender::<T>::viewer_connected, (joined, viewer_id, track), ()),
        call_ensures(FrameSender::<T>::remove_viewer, (left, leaving), ()),
        call_ensures(FrameSender::<T>::clear_viewers, (cleared,), ()),
    ensures
        final(joined)@.force_idr,
        final(left)@.force_idr == old(left)@.force_idr,
        final(cleared)@.force_idr == old(cleared)@.force_idr,
        final(joined)@.viewers.contains_key(viewer_id@),
        final(joined)@.viewers[viewer_id@] == track,
        forall|other: Seq<char>| #[trigger]
            final(joined)@.viewers.contains_key(other) <==> other == viewer_id@ || old(joined)@.viewers.contains_key(other),
        forall|other: Seq<char>|
            other != viewer_id@ && #[trigger] old(joined)@.viewers.contains_key(other)
                ==> final(joined)@.viewers[other] == old(joined)@.viewers[other],
        final(joined)@.desired == old(joined)@.desired,
        final(joined)@.target == old(joined)@.target,
        forall|other: Seq<char>| #[trigger]
            final(left)@.viewers.contains_key(other) <==> other != leaving@ && old(left)@.viewers.contains_key(other),
        forall|other: Seq<char>| #[trigger]
            final(left)@.desired.contains_key(other) <==> other != leaving@ && old(left)@.desired.contains_key(other),
        forall|other: Seq<char>|
            other != leaving@ && #[trigger] old(left)@.desired.contains_key(other)
                ==> final(left)@.desired[other] == old(left)@.desired[other],
        forall|other: Seq<char>| !(#[trigger] final(cleared)@.viewers.contains_key(other)),
        forall|other: Seq<char>| !(#[trigger] final(cleared)@.desired.contains_key(other)),
        final(cleared)@.target == old(cleared)@.max,
        final(joined)@.max == old(joined)@.max,
        final(left)@.max == old(left)@.max,
        final(cleared)@.max == old(cleared)@.max,
{
}

/// Taking a request up says whether one was pending, and leaves none: taken
/// up again at once, there is none.
pub proof fn law_request_is_taken_up_once<T>(
    first: &mut FrameSender<T>,
    pending: bool,
    second: &mut FrameSender<T>,
    again: bool,
)
    requires
        call_ensures(FrameSender::<T>::take_force_idr, (first,), pending),
        call_ensures(FrameSender::<T>::take_force_idr, (second,), again),
        old(second)@ == final(first)@,
    ensures
        pending == old(first)@.force_idr,
        !again,
        final(first)@.viewers == old(first)@.viewers,
        final(first)@.desired == old(first)@.desired,
        final(first)@.target == old(first)@.target,
{
}

/// A viewer that joins, or asks for a keyframe, gets one with the next frame,
/// also if other viewers asked before or give other feedback afterwards.
pub proof fn law_next_frame_is_the_keyframe_asked_for<T>(
    asked: &mut FrameSender<T>,
    viewer_id: &str,
    rate: &mut ViewerRate,
    packet: &RtcpPacket,
    more: &mut FrameSender<T>,
    other_id: &str,
    other_rate: &mut ViewerRate,
    other_packet: &RtcpPacket,
    taken: &mut FrameSender<T>,
    force: bool,
)
    requires
        call_ensures(FrameSender::<T>::on_rtcp, (asked, viewer_id, rate, packet), ()),
        call_ensures(FrameSender::<T>::on_rtcp, (more, other_id, other_rate, other_packet), ()),
        call_ensures(FrameSender::<T>::take_force_idr, (taken,), force),
        old(more)@ == final(asked)@,
        old(taken)@ == final(more)@,
        old(asked)@.force_idr || packet is PictureLossIndication || packet is FullIntraRequest,
    ensures
        force,
{
    law_feedback_asks_for_keyframes(asked, viewer_id, rate, packet);
    law_feedback_asks_for_keyframes(more, other_id, other_rate, other_packet);
}

/// Receiver reports make the viewer want what its rate came to, and nobody
/// else anything else. The stream is then encoded at no more than any viewer
/// wants, and at what one of them wants.
pub proof fn law_reports_set_what_a_viewer_wants<T>(
    sender: &mut FrameSender<T>,
    viewer_id: &str,
    rate: &mut ViewerRate,
    packet: &RtcpPacket,
    fractions_lost: Vec<u8>,
)
    requires
        call_ensures(FrameSender::<T>::on_rtcp, (sender, viewer_id, rate, packet), ()),
        *packet == (RtcpPacket::ReceiverReport { fractions_lost }),
    ensures
        fractions_lost@.len() == 0 ==> final(sender)@ == old(sender)@,
        final(sender)@.viewers == old(sender)@.viewers,
        final(sender)@.max == old(sender)@.max,
        fractions_lost@.len() > 0 ==> {
            &&& final(sender)@.desired.contains_key(viewer_id@)
            &&& final(sender)@.desired[viewer_id@] == final(rate)@.current
            &&& forall|other: Seq<char>| #[trigger]
                final(sender)@.desired.contains_key(other) ==> final(sender)@.target
                    <= final(sender)@.desired[other]
            &&& exists|other: Seq<char>| #[trigger]
                final(sender)@.desired.contains_key(other) && final(sender)@.target
                    == final(sender)@.desired[other]
        },
        forall|other: Seq<char>|
            other != viewer_id@ ==> (#[trigger] final(sender)@.desired.contains_key(other) <==> old(sender)@.desired.contains_key(other)),
        forall|other: Seq<char>|
            other != viewer_id@ && #[trigger] old(sender)@.desired.contains_key(other)
                ==> final(sender)@.desired[other] == old(sender)@.desired[other],
{
    lemma_reports(old(sender)@, old(rate)@, viewer_id@, fractions_lost@);
    if fractions_lost@.len() > 0 {
        assert(final(sender)@.desired.dom().contains(viewer_id@));
    }
}

/// Whatever happens, a sender encodes at no more than the stream started
/// with, and once somebody has asked, at no less than a quarter of it and no
/// less than a million bits per second.
pub proof fn law_target_stays_in_range<T>(sender: &FrameSender<T>, target: u32)
    requires
        call_ensures(FrameSender::<T>::target_bitrate_bps, (sender,), target),
    ensures
        target <= sender@.max,
        sender@.desired.dom().is_empty() ==> target == sender@.max,
        !sender@.desired.dom().is_empty() ==> target >= 1_000_000 && target >= sender@.max / 4,
        forall|viewer: Seq<char>| #[trigger]
            sender@.desired.contains_key(viewer) ==> target <= sender@.desired[viewer],
{
}

/// Every viewer gets exactly one copy of each encoded frame.
pub proof fn law_every_viewer_gets_the_frame<'a, T>(
    sender: &'a FrameSender<T>,
    data: &'a Vec<u8>,
    duration_nanos: u64,
    out: Vec<Transmission<'a, T>>,
    viewer: Seq<char>,
)
    requires
        call_ensures(FrameSender::<T>::send, (sender, data, duration_nanos), out),
    ensures
        out@.len() == sender@.viewers.dom().len(),
        sender@.viewers.contains_key(viewer) ==> exists|i: int|
            0 <= i < out@.len() && *(#[trigger] out@[i]).track == sender@.viewers[viewer],
        forall|i: int|
            0 <= i < out@.len() ==> (#[trigger] out@[i]).data@ == data@ && out@[i].duration_nanos
                == duration_nanos,
{
    let order = sender.order();
    order.unique_seq_to_set();
    if sender@.viewers.contains_key(viewer) {
        assert(order.to_set().contains(viewer));
        let i = choose|i: int| 0 <= i < order.len() && order[i] == viewer;
        assert(*out@[i].track == sender@.viewers[viewer]);
    }
}

/// A new sender has no viewers, and encodes at what the stream starts with.
pub proof fn law_new_sender_has_no_viewers<T>(
    ice_servers: Vec<IceServer>,
    bitrate_bps: u32,
    port_forward: Option<PortForward>,
    sender: FrameSender<T>,
    rate: ViewerRate,
    viewer: Seq<char>,
)
    requires
        call_ensures(FrameSender::<T>::new, (ice_servers, bitrate_bps, port_forward), sender),
        call_ensures(FrameSender::<T>::new_viewer_rate, (&sender,), rate),
    ensures
        !sender@.viewers.contains_key(viewer),
        !sender@.desired.contains_key(viewer),
        !sender@.force_idr,
        sender@.target == bitrate_bps,
        sender@.max == bitrate_bps,
        rate@.current == bitrate_bps,
        rate@.max == bitrate_bps,
        rate@.good_streak == 0,
{
}

/// What happens to a sender, as far as keyframes go.
pub enum SenderEvent<T> {
    Connected { viewer: Seq<char>, track: T },
    Left { viewer: Seq<char> },
    Feedback { viewer: Seq<char>, rate: RateView, packet: RtcpPacket },
    /// A frame is about to be encoded, and takes a request up.
    TakenUp,
}

/// What a sender knows after an event.
pub open spec fn after_sender_event<T>(s: SenderView<T>, event: SenderEvent<T>) -> SenderView<T> {
    match event {
        SenderEvent::Connected { viewer, track } => after_connect(s, viewer, track),
        SenderEvent::Left { viewer } => after_leave(s, viewer),
        SenderEvent::Feedback { viewer, rate, packet } => after_packet(s, rate, viewer, packet).0,
        SenderEvent::TakenUp => SenderView { force_idr: false, ..s },
    }
}

/// What a sender knows after a run of events.
pub open spec fn after_sender_run<T>(
    s: SenderView<T>,
    events: Seq<SenderEvent<T>>,
) -> SenderView<T>
    decreases events.len(),
{
    if events.len() == 0 {
        s
    } else {
        after_sender_event(after_sender_run(s, events.drop_last()), events.last())
    }
}

/// Whether an event asks for a keyframe.
pub open spec fn asks<T>(event: SenderEvent<T>) -> bool {
    match event {
        SenderEvent::Connected { .. } => true,
        SenderEvent::Feedback { packet, .. } => packet is PictureLossIndication
            || packet is FullIntraRequest,
        _ => false,
    }
}

/// However events come, a keyframe is pending exactly if one was asked for
/// since a request was last taken up.
pub proof fn law_pending_until_taken_up<T>(s: SenderView<T>, events: Seq<SenderEvent<T>>)
    requires
        !s.force_idr,
    ensures
        after_sender_run(s, events).force_idr <==> exists|i: int|
            0 <= i < events.len() && asks(#[trigger] events[i]) && forall|j: int|
                i < j < events.len() ==> !(#[trigger] events[j] is TakenUp),
    decreases events.len(),
{
    let pending = after_sender_run(s, events).force_idr;
    if events.len() > 0 {
        let rest = events.drop_last();
        let last = events.last();
        let n = events.len() - 1;
        assert(events[n] == last);
        assert(forall|i: int| 0 <= i < n ==> rest[i] == events[i]);
        law_pending_until_taken_up(s, rest);
        if let SenderEvent::Feedback { viewer, rate, packet } = last {
            if let RtcpPacket::ReceiverReport { fractions_lost } = packet {
                lemma_reports(after_sender_run(s, rest), rate, viewer, fractions_lost@);
            }
        }
        if asks(last) {
            assert(asks(events[n]));
            assert(forall|j: int| n < j < events.len() ==> !(#[trigger] events[j] is TakenUp));
        } else if !(last is TakenUp) && after_sender_run(s, rest).force_idr {
            let i = choose|i: int|
                0 <= i < rest.len() && asks(#[trigger] rest[i]) && forall|j: int|
                    i < j < rest.len() ==> !(#[trigger] rest[j] is TakenUp);
            assert(asks(events[i]));
            assert forall|j: int| i < j < events.len() implies !(#[trigger] events[j] is TakenUp) by {
                if j < n {
                    assert(!(rest[j] is TakenUp));
                }
            }
        } else if !(last is TakenUp) {
            assert forall|i: int| 0 <= i < events.len() && asks(#[trigger] events[i]) implies exists|
                j: int,
            | i < j < events.len() && #[trigger] events[j] is TakenUp by {
                assert(asks(rest[i]));
                let j = choose|j: int| i < j < rest.len() && #[trigger] rest[j] is TakenUp;
                assert(events[j] is TakenUp);
            }
        } else {
            assert(events[n] is TakenUp);
        }
    }
}

/// What a sender was made with can be asked: its ICE servers, its port
/// mapping, and the public address of that.
pub proof fn law_sender_says_what_it_was_made_with<T>(
    ice_servers: Vec<IceServer>,
    bitrate_bps: u32,
    port_forward: Option<PortForward>,
    sender: FrameSender<T>,
    servers: &Vec<IceServer>,
    forward: Option<&PortForward>,
    ip: Option<String>,
    target: u32,
)
    requires
        call_ensures(FrameSender::<T>::new, (ice_servers, bitrate_bps, port_forward), sender),
        call_ensures(FrameSender::<T>::ice_servers, (&sender,), servers),
        call_ensures(FrameSender::<T>::port_forward, (&sender,), forward),
        call_ensures(FrameSender::<T>::port_forward_ip, (&sender,), ip),
        call_ensures(FrameSender::<T>::target_bitrate_bps, (&sender,), target),
    ensures
        servers@ == ice_servers@,
        forward is Some <==> port_forward is Some,
        forward matches Some(f) ==> port_forward == Some(*f),
        ip is Some <==> port_forward is Some,
        ip matches Some(text) ==> text@ == port_forward->0.external_ip@,
        target == bitrate_bps,
{
}

} // verus!
