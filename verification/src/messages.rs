//! The signaling messages between host, server and viewers.
//!
//! Every message is a JSON object of texts with a `type`.
use vstd::prelude::*;

use crate::json::{
    get_text, members_of, object_text, pair_views, parse, parsed, printed, text_member,
};
use crate::text::same_text;

verus! {

/// Whether `text` is the JSON text of an object with the given keys and
/// texts, and reads back as one.
pub open spec fn says(text: Seq<char>, pairs: Seq<(Seq<char>, Seq<char>)>) -> bool {
    text == printed(members_of(pairs)) && parsed(text) == Some(members_of(pairs))
}

/// A message of the given type without further members.
pub open spec fn bare(kind: Seq<char>) -> Seq<(Seq<char>, Seq<char>)> {
    seq![("type"@, kind)]
}

/// A message of the given type with one more member.
pub open spec fn with_one(kind: Seq<char>, key: Seq<char>, value: Seq<char>) -> Seq<
    (Seq<char>, Seq<char>),
> {
    bare(kind).push((key, value))
}

/// A message of the given type about a viewer, with an SDP.
pub open spec fn with_viewer_and_sdp(
    kind: Seq<char>,
    viewer_id: Seq<char>,
    sdp: Seq<char>,
) -> Seq<(Seq<char>, Seq<char>)> {
    with_one(kind, "viewer_id"@, viewer_id).push(("sdp"@, sdp))
}

fn pair(key: &str, value: &str) -> (p: (String, String))
    ensures
        p.0@ == key@,
        p.1@ == value@,
{
    (key.to_owned(), value.to_owned())
}

/// Writes a message without further members.
fn write_bare(kind: &str) -> (text: String)
    ensures
        says(text@, bare(kind@)),
{
    let mut pairs: Vec<(String, String)> = Vec::new();
    pairs.push(pair("type", kind));
    proof {
        reveal_strlit("type");
        assert(pair_views(pairs@) =~= bare(kind@));
    }
    object_text(pairs)
}

/// Writes a message with one more member.
fn write_with_one(kind: &str, key: &str, value: &str) -> (text: String)
    requires
        key@.len() > 0,
        key@[0] != '$',
    ensures
        says(text@, with_one(kind@, key@, value@)),
{
    let mut pairs: Vec<(String, String)> = Vec::new();
    pairs.push(pair("type", kind));
    pairs.push(pair(key, value));
    proof {
        reveal_strlit("type");
        assert(pair_views(pairs@) =~= with_one(kind@, key@, value@));
    }
    object_text(pairs)
}

/// Writes a message about a viewer, with an SDP.
fn write_with_viewer_and_sdp(kind: &str, viewer_id: &str, sdp: &str) -> (text: String)
    ensures
        says(text@, with_viewer_and_sdp(kind@, viewer_id@, sdp@)),
{
    let mut pairs: Vec<(String, String)> = Vec::new();
    pairs.push(pair("type", kind));
    pairs.push(pair("viewer_id", viewer_id));
    pairs.push(pair("sdp", sdp));
    proof {
        reveal_strlit("type");
        reveal_strlit("viewer_id");
        reveal_strlit("sdp");
        assert(pair_views(pairs@) =~= with_viewer_and_sdp(kind@, viewer_id@, sdp@));
    }
    object_text(pairs)
}

/// Tells a host that its token is missing or wrong.
pub fn unauthorized() -> (text: String)
    ensures
        says(text@, bare("unauthorized"@)),
{
    write_bare("unauthorized")
}

/// Tells a host that its build is too old.
pub fn version_rejected(min_version: &str) -> (text: String)
    ensures
        says(text@, with_one("version_rejected"@, "min_version"@, min_version@)),
{
    proof {
        reveal_strlit("min_version");
    }
    write_with_one("version_rejected", "min_version", min_version)
}

/// Tells a host its room code.
pub fn room_created(room_code: &str) -> (text: String)
    ensures
        says(text@, with_one("room_created"@, "room_code"@, room_code@)),
{
    proof {
        reveal_strlit("room_code");
    }
    write_with_one("room_created", "room_code", room_code)
}

/// Passes a viewer's offer on to the host.
pub fn offer_to_host(viewer_id: &str, sdp: &str) -> (text: String)
    ensures
        says(text@, with_viewer_and_sdp("offer"@, viewer_id@, sdp@)),
{
    write_with_viewer_and_sdp("offer", viewer_id, sdp)
}

/// Tells the host that a viewer is gone.
pub fn viewer_left(viewer_id: &str) -> (text: String)
    ensures
        says(text@, with_one("viewer_left"@, "viewer_id"@, viewer_id@)),
{
    proof {
        reveal_strlit("viewer_id");
    }
    write_with_one("viewer_left", "viewer_id", viewer_id)
}

/// Passes the host's answer on to a viewer.
pub fn answer_to_viewer(sdp: &str) -> (text: String)
    ensures
        says(text@, with_one("answer"@, "sdp"@, sdp@)),
{
    proof {
        reveal_strlit("sdp");
    }
    write_with_one("answer", "sdp", sdp)
}

/// Tells a viewer why it can't watch.
pub fn error(message: &str) -> (text: String)
    ensures
        says(text@, with_one("error"@, "message"@, message@)),
{
    proof {
        reveal_strlit("message");
    }
    write_with_one("error", "message", message)
}

/// The host's answer to a viewer's offer, as sent to the server.
pub fn answer_from_host(viewer_id: &str, sdp: &str) -> (text: String)
    ensures
        says(text@, with_viewer_and_sdp("answer"@, viewer_id@, sdp@)),
{
    write_with_viewer_and_sdp("answer", viewer_id, sdp)
}

// ---------------------------------------------------------------------
// Reading
// ---------------------------------------------------------------------

/// The viewer and the SDP that a host's answer names; `None` for any other
/// message.
pub open spec fn read_answer(
    kind: Option<Seq<char>>,
    viewer_id: Option<Seq<char>>,
    sdp: Option<Seq<char>>,
) -> Option<(Seq<char>, Seq<char>)> {
    if kind == Some("answer"@) && viewer_id is Some && sdp is Some {
        Some((viewer_id->0, sdp->0))
    } else {
        None
    }
}

/// The SDP of a viewer's offer; `None` for any other message.
pub open spec fn read_offer(kind: Option<Seq<char>>, sdp: Option<Seq<char>>) -> Option<Seq<char>> {
    if kind == Some("offer"@) && sdp is Some {
        Some(sdp->0)
    } else {
        None
    }
}

/// What a host's message says, if it is an answer.
pub open spec fn answer_in(text: Seq<char>) -> Option<(Seq<char>, Seq<char>)> {
    match parsed(text) {
        Some(m) => read_answer(
            text_member(m, "type"@),
            text_member(m, "viewer_id"@),
            text_member(m, "sdp"@),
        ),
        None => None,
    }
}

/// What a viewer's message says, if it is an offer.
pub open spec fn offer_in(text: Seq<char>) -> Option<Seq<char>> {
    match parsed(text) {
        Some(m) => read_offer(text_member(m, "type"@), text_member(m, "sdp"@)),
        None => None,
    }
}

/// The view of an optional text.
pub open spec fn text_view(text: Option<String>) -> Option<Seq<char>> {
    match text {
        Some(t) => Some(t@),
        None => None,
    }
}

/// The view of an optional pair of texts.
pub open spec fn pair_view(pair: Option<(String, String)>) -> Option<(Seq<char>, Seq<char>)> {
    match pair {
        Some((a, b)) => Some((a@, b@)),
        None => None,
    }
}

/// Whether a message's `type` is `kind`.
fn is_kind(found: &Option<String>, kind: &str) -> (same: bool)
    ensures
        same == (text_view(*found) == Some(kind@)),
{
    match found {
        Some(k) => same_text(k.as_str(), kind),
        None => false,
    }
}

/// Reads a host's answer out of the members of its message.
pub fn answer_of(kind: Option<String>, viewer_id: Option<String>, sdp: Option<String>) -> (answer:
    Option<(String, String)>)
    ensures
        pair_view(answer) == read_answer(text_view(kind), text_view(viewer_id), text_view(sdp)),
{
    if !is_kind(&kind, "answer") {
        return None;
    }
    match (viewer_id, sdp) {
        (Some(viewer_id), Some(sdp)) => Some((viewer_id, sdp)),
        _ => None,
    }
}

/// Reads a viewer's offer out of the members of its message.
pub fn offer_of(kind: Option<String>, sdp: Option<String>) -> (offer: Option<String>)
    ensures
        text_view(offer) == read_offer(text_view(kind), text_view(sdp)),
{
    if !is_kind(&kind, "offer") {
        return None;
    }
    sdp
}

/// Reads a host's answer: the viewer it is for, and its SDP.
pub fn parse_answer(text: &str) -> (answer: Option<(String, String)>)
    ensures
        pair_view(answer) == answer_in(text@),
{
    match parse(text) {
        Some(value) => answer_of(
            get_text(&value, "type"),
            get_text(&value, "viewer_id"),
            get_text(&value, "sdp"),
        ),
        None => None,
    }
}

/// Reads a viewer's offer: its SDP.
pub fn parse_offer(text: &str) -> (offer: Option<String>)
    ensures
        text_view(offer) == offer_in(text@),
{
    match parse(text) {
        Some(value) => offer_of(get_text(&value, "type"), get_text(&value, "sdp")),
        None => None,
    }
}

// ---------------------------------------------------------------------
// What is written reads back
// ---------------------------------------------------------------------

proof fn lemma_members(kind: Seq<char>, viewer_id: Seq<char>, sdp: Seq<char>)
    ensures
        text_member(members_of(bare(kind)), "type"@) == Some(kind),
        text_member(members_of(with_one(kind, "sdp"@, sdp)), "type"@) == Some(kind),
        text_member(members_of(with_one(kind, "sdp"@, sdp)), "sdp"@) == Some(sdp),
        text_member(members_of(with_viewer_and_sdp(kind, viewer_id, sdp)), "type"@) == Some(kind),
        text_member(members_of(with_viewer_and_sdp(kind, viewer_id, sdp)), "viewer_id"@) == Some(
            viewer_id,
        ),
        text_member(members_of(with_viewer_and_sdp(kind, viewer_id, sdp)), "sdp"@) == Some(sdp),
{
    reveal_strlit("type");
    reveal_strlit("viewer_id");
    reveal_strlit("sdp");
    reveal_with_fuel(members_of, 4);
    assert("type"@.len() == 4 && "viewer_id"@.len() == 9 && "sdp"@.len() == 3);
    assert(bare(kind).drop_last() =~= Seq::<(Seq<char>, Seq<char>)>::empty());
    assert(with_one(kind, "sdp"@, sdp).drop_last() =~= bare(kind));
    assert(with_one(kind, "viewer_id"@, viewer_id).drop_last() =~= bare(kind));
    assert(with_viewer_and_sdp(kind, viewer_id, sdp).drop_last() =~= with_one(
        kind,
        "viewer_id"@,
        viewer_id,
    ));
}

/// The answer that a host writes is read by the server as that answer: for
/// the same viewer, with the same SDP.
pub proof fn law_answer_reads_back(text: Seq<char>, viewer_id: Seq<char>, sdp: Seq<char>)
    requires
        says(text, with_viewer_and_sdp("answer"@, viewer_id, sdp)),
    ensures
        answer_in(text) == Some((viewer_id, sdp)),
        offer_in(text) is None,
{
    lemma_members("answer"@, viewer_id, sdp);
    reveal_strlit("answer");
    reveal_strlit("offer");
    assert("answer"@.len() != "offer"@.len());
}

/// An offer in a viewer's form is read by the server as that offer.
pub proof fn law_offer_reads_back(text: Seq<char>, sdp: Seq<char>)
    requires
        says(text, with_one("offer"@, "sdp"@, sdp)),
    ensures
        offer_in(text) == Some(sdp),
        answer_in(text) is None,
{
    lemma_members("offer"@, sdp, sdp);
    reveal_strlit("answer");
    reveal_strlit("offer");
    assert("answer"@.len() != "offer"@.len());
}

/// The offer that the server passes on to the host reads back as an offer
/// that names the viewer and carries the SDP unchanged.
pub proof fn law_relayed_offer_reads_back(text: Seq<char>, viewer_id: Seq<char>, sdp: Seq<char>)
    requires
        says(text, with_viewer_and_sdp("offer"@, viewer_id, sdp)),
    ensures
        parsed(text) is Some,
        text_member(parsed(text)->0, "type"@) == Some("offer"@),
        text_member(parsed(text)->0, "viewer_id"@) == Some(viewer_id),
        text_member(parsed(text)->0, "sdp"@) == Some(sdp),
{
    lemma_members("offer"@, viewer_id, sdp);
}

/// The answer that the server passes on to a viewer reads back as an answer
/// that carries the SDP unchanged.
pub proof fn law_relayed_answer_reads_back(text: Seq<char>, sdp: Seq<char>)
    requires
        says(text, with_one("answer"@, "sdp"@, sdp)),
    ensures
        parsed(text) is Some,
        text_member(parsed(text)->0, "type"@) == Some("answer"@),
        text_member(parsed(text)->0, "sdp"@) == Some(sdp),
{
    lemma_members("answer"@, sdp, sdp);
}

/// A notice without further members, such as `unauthorized`, reads back as
/// what it is.
pub proof fn law_bare_notice_reads_back(text: Seq<char>, kind: Seq<char>)
    requires
        says(text, bare(kind)),
    ensures
        parsed(text) is Some,
        text_member(parsed(text)->0, "type"@) == Some(kind),
{
    lemma_members(kind, kind, kind);
}

/// A notice with one more member, such as `room_created`, reads back as what
/// it is, with that member unchanged.
pub proof fn law_notice_reads_back(
    text: Seq<char>,
    kind: Seq<char>,
    key: Seq<char>,
    value: Seq<char>,
)
    requires
        says(text, with_one(kind, key, value)),
        key != "type"@,
    ensures
        parsed(text) is Some,
        text_member(parsed(text)->0, "type"@) == Some(kind),
        text_member(parsed(text)->0, key) == Some(value),
{
    reveal_with_fuel(members_of, 3);
    assert(bare(kind).drop_last() =~= Seq::<(Seq<char>, Seq<char>)>::empty());
    assert(with_one(kind, key, value).drop_last() =~= bare(kind));
}

/// The member of the JSON object that a text spells.
pub open spec fn member_in(text: Seq<char>, key: Seq<char>) -> Option<Seq<char>> {
    match parsed(text) {
        Some(m) => text_member(m, key),
        None => None,
    }
}

/// What a host is told: that its token is wrong, that its build is too old
/// and which one it takes, or its room code.
pub proof fn law_what_hosts_are_told(
    wrong_token: String,
    min_version: &str,
    too_old: String,
    room_code: &str,
    created: String,
)
    requires
        call_ensures(unauthorized, (), wrong_token),
        call_ensures(version_rejected, (min_version,), too_old),
        call_ensures(room_created, (room_code,), created),
    ensures
        member_in(wrong_token@, "type"@) == Some("unauthorized"@),
        member_in(too_old@, "type"@) == Some("version_rejected"@),
        member_in(too_old@, "min_version"@) == Some(min_version@),
        member_in(created@, "type"@) == Some("room_created"@),
        member_in(created@, "room_code"@) == Some(room_code@),
{
    reveal_strlit("type");
    reveal_strlit("min_version");
    reveal_strlit("room_code");
    assert("type"@.len() == 4 && "min_version"@.len() == 11 && "room_code"@.len() == 9);
    law_bare_notice_reads_back(wrong_token@, "unauthorized"@);
    law_notice_reads_back(too_old@, "version_rejected"@, "min_version"@, min_version@);
    law_notice_reads_back(created@, "room_created"@, "room_code"@, room_code@);
}

/// What is passed on: an offer with the viewer it is from, an answer without
/// one, which viewer has left, and why a viewer can't watch.
pub proof fn law_what_is_passed_on(
    viewer_id: &str,
    sdp: &str,
    offer: String,
    answer: String,
    left: String,
    message: &str,
    refused: String,
)
    requires
        call_ensures(offer_to_host, (viewer_id, sdp), offer),
        call_ensures(answer_to_viewer, (sdp,), answer),
        call_ensures(viewer_left, (viewer_id,), left),
        call_ensures(error, (message,), refused),
    ensures
        member_in(offer@, "type"@) == Some("offer"@),
        member_in(offer@, "viewer_id"@) == Some(viewer_id@),
        member_in(offer@, "sdp"@) == Some(sdp@),
        member_in(answer@, "type"@) == Some("answer"@),
        member_in(answer@, "sdp"@) == Some(sdp@),
        member_in(answer@, "viewer_id"@) is None,
        member_in(left@, "type"@) == Some("viewer_left"@),
        member_in(left@, "viewer_id"@) == Some(viewer_id@),
        member_in(refused@, "type"@) == Some("error"@),
        member_in(refused@, "message"@) == Some(message@),
{
    reveal_strlit("type");
    reveal_strlit("viewer_id");
    reveal_strlit("sdp");
    reveal_strlit("message");
    assert("type"@.len() == 4 && "viewer_id"@.len() == 9 && "sdp"@.len() == 3 && "message"@.len()
        == 7);
    law_relayed_offer_reads_back(offer@, viewer_id@, sdp@);
    law_relayed_answer_reads_back(answer@, sdp@);
    law_notice_reads_back(left@, "viewer_left"@, "viewer_id"@, viewer_id@);
    law_notice_reads_back(refused@, "error"@, "message"@, message@);
    reveal_with_fuel(members_of, 3);
    assert(bare("answer"@).drop_last() =~= Seq::<(Seq<char>, Seq<char>)>::empty());
    assert(with_one("answer"@, "sdp"@, sdp@).drop_last() =~= bare("answer"@));
}

/// The answer that a host writes reaches the server whole: it is read as an
/// answer for the same viewer with the same SDP, and never as an offer.
pub proof fn law_written_answer_is_read(
    viewer_id: &str,
    sdp: &str,
    written: String,
    text: &str,
    answer: Option<(String, String)>,
    offer: Option<String>,
)
    requires
        call_ensures(answer_from_host, (viewer_id, sdp), written),
        text@ == written@,
        call_ensures(parse_answer, (text,), answer),
        call_ensures(parse_offer, (text,), offer),
    ensures
        answer matches Some((viewer, description)) && viewer@ == viewer_id@ && description@ == sdp@,
        offer is None,
{
    law_answer_reads_back(written@, viewer_id@, sdp@);
}

/// What is read as an answer has the type, the viewer and the SDP of one, and
/// what is read as an offer the type and the SDP; nothing is read as both,
/// and what lacks one of these as neither.
pub proof fn law_what_is_read(text: &str, answer: Option<(String, String)>, offer: Option<String>)
    requires
        call_ensures(parse_answer, (text,), answer),
        call_ensures(parse_offer, (text,), offer),
    ensures
        answer is Some <==> member_in(text@, "type"@) == Some("answer"@) && member_in(
            text@,
            "viewer_id"@,
        ) is Some && member_in(text@, "sdp"@) is Some,
        answer matches Some((viewer, sdp)) ==> member_in(text@, "viewer_id"@) == Some(viewer@)
            && member_in(text@, "sdp"@) == Some(sdp@),
        offer is Some <==> member_in(text@, "type"@) == Some("offer"@) && member_in(text@, "sdp"@)
            is Some,
        offer matches Some(sdp) ==> member_in(text@, "sdp"@) == Some(sdp@),
        answer is None || offer is None,
{
    reveal_strlit("answer");
    reveal_strlit("offer");
    assert("answer"@.len() != "offer"@.len());
}

/// The same of the members once they have been taken out of a message.
pub proof fn law_what_members_say(
    kind: Option<String>,
    viewer_id: Option<String>,
    sdp: Option<String>,
    answer: Option<(String, String)>,
    offer: Option<String>,
)
    requires
        call_ensures(answer_of, (kind, viewer_id, sdp), answer),
        call_ensures(offer_of, (kind, sdp), offer),
    ensures
        answer is Some <==> kind is Some && kind->0@ == "answer"@ && viewer_id is Some && sdp
            is Some,
        answer matches Some((viewer, description)) ==> viewer@ == viewer_id->0@ && description@
            == sdp->0@,
        offer is Some <==> kind is Some && kind->0@ == "offer"@ && sdp is Some,
        offer matches Some(description) ==> description@ == sdp->0@,
{
}

} // verus!
