//! JSON objects, read and written with `serde_json`.
//!
//! Signaling messages are objects whose members are text. An object is
//! described by its members: each key with its text, or with `None` where
//! the member is something other than text.
use vstd::prelude::*;

verus! {

/// A JSON value, opaque but for [`members`].
#[verifier::external_type_specification]
#[verifier::external_body]
pub struct ExValue(serde_json::Value);

/// A JSON object under construction, opaque but for [`fields`].
#[verifier::external_type_specification]
#[verifier::external_body]
#[verifier::reject_recursive_types(K)]
#[verifier::reject_recursive_types(V)]
pub struct ExFields<K, V>(serde_json::Map<K, V>);

/// The members of a JSON value; none if it is not an object.
pub uninterp spec fn members(value: serde_json::Value) -> Map<Seq<char>, Option<Seq<char>>>;

/// The members of a JSON object under construction.
pub uninterp spec fn fields(
    object: serde_json::Map<String, serde_json::Value>,
) -> Map<Seq<char>, Option<Seq<char>>>;

/// The members of the JSON value that a text spells; `None` if it is not
/// JSON.
pub uninterp spec fn parsed(text: Seq<char>) -> Option<Map<Seq<char>, Option<Seq<char>>>>;

/// The compact JSON text of an object with these members.
pub uninterp spec fn printed(members: Map<Seq<char>, Option<Seq<char>>>) -> Seq<char>;

/// The text of a member; `None` if there is no such member, or if it is not
/// text.
pub open spec fn text_member(
    members: Map<Seq<char>, Option<Seq<char>>>,
    key: Seq<char>,
) -> Option<Seq<char>> {
    if members.contains_key(key) {
        members[key]
    } else {
        None
    }
}

/// Whether every member is text and no key starts with `$`.
pub open spec fn plain(members: Map<Seq<char>, Option<Seq<char>>>) -> bool {
    forall|key: Seq<char>| #[trigger]
        members.contains_key(key) ==> members[key] is Some && key.len() > 0 && key[0] != '$'
}

/// `serde_json::from_str` into a `serde_json::Value`: whether the text is
/// JSON, and what members the value has, depends on the text alone.
#[verifier::external_body]
pub(crate) fn parse(text: &str) -> (value: Option<serde_json::Value>)
    ensures
        match value {
            Some(v) => parsed(text@) == Some(members(v)),
            None => parsed(text@) is None,
        },
{
    serde_json::from_str::<serde_json::Value>(text).ok()
}

/// `serde_json::Value::get` with a text key, then `as_str`: the member's
/// text, if the value is an object that has that member and it is text.
#[verifier::external_body]
pub(crate) fn get_text(value: &serde_json::Value, key: &str) -> (text: Option<String>)
    ensures
        match text {
            Some(t) => text_member(members(*value), key@) == Some(t@),
            None => text_member(members(*value), key@) is None,
        },
{
    value.get(key).and_then(serde_json::Value::as_str).map(str::to_owned)
}

/// `serde_json::Map::new`: an object without members.
#[verifier::external_body]
fn no_fields() -> (object: serde_json::Map<String, serde_json::Value>)
    ensures
        forall|key: Seq<char>| !(#[trigger] fields(object).contains_key(key)),
{
    serde_json::Map::new()
}

/// `serde_json::Map::insert` with a `serde_json::Value::String`: puts a text
/// under a key, in place of what was there.
#[verifier::external_body]
fn insert_text(object: &mut serde_json::Map<String, serde_json::Value>, key: String, text: String)
    ensures
        fields(*final(object)) == fields(*old(object)).insert(key@, Some(text@)),
{
    object.insert(key, serde_json::Value::String(text));
}

/// `to_string` on a `serde_json::Value::Object`: the compact JSON text of an
/// object whose members are all text. Members are printed in the order of
/// their keys, so the text depends on the members alone; and reading it back
/// gives the same members. Keys that start with `$` are left out, since
/// `serde_json` keeps a few of them for itself when it reads.
#[verifier::external_body]
fn print(object: serde_json::Map<String, serde_json::Value>) -> (text: String)
    requires
        plain(fields(object)),
    ensures
        text@ == printed(fields(object)),
        parsed(text@) == Some(fields(object)),
{
    serde_json::Value::Object(object).to_string()
}

/// The members that a list of keys and texts gives, later ones in place of
/// earlier ones under the same key.
pub open spec fn members_of(pairs: Seq<(Seq<char>, Seq<char>)>) -> Map<
    Seq<char>,
    Option<Seq<char>>,
>
    decreases pairs.len(),
{
    if pairs.len() == 0 {
        Map::empty()
    } else {
        members_of(pairs.drop_last()).insert(pairs.last().0, Some(pairs.last().1))
    }
}

/// What a list of keys and texts says.
pub open spec fn pair_views(pairs: Seq<(String, String)>) -> Seq<(Seq<char>, Seq<char>)> {
    pairs.map_values(|p: (String, String)| (p.0@, p.1@))
}

/// The JSON text of an object with the given keys and texts.
pub fn object_text(pairs: Vec<(String, String)>) -> (text: String)
    requires
        forall|i: int|
            0 <= i < pairs@.len() ==> (#[trigger] pairs@[i]).0@.len() > 0 && pairs@[i].0@[0] != '$',
    ensures
        text@ == printed(members_of(pair_views(pairs@))),
        parsed(text@) == Some(members_of(pair_views(pairs@))),
{
    let mut object = no_fields();
    let ghost all = pair_views(pairs@);
    let mut i: usize = 0;
    proof {
        assert(all.take(0) =~= Seq::<(Seq<char>, Seq<char>)>::empty());
        assert(fields(object) =~= members_of(all.take(0)));
    }
    while i < pairs.len()
        invariant
            i <= pairs@.len(),
            all == pair_views(pairs@),
            forall|j: int|
                0 <= j < pairs@.len() ==> (#[trigger] pairs@[j]).0@.len() > 0 && pairs@[j].0@[0]
                    != '$',
            fields(object) == members_of(all.take(i as int)),
            plain(fields(object)),
        decreases pairs@.len() - i,
    {
        let ghost before = fields(object);
        insert_text(&mut object, pairs[i].0.clone(), pairs[i].1.clone());
        proof {
            let upto = all.take(i + 1);
            assert(upto.drop_last() =~= all.take(i as int));
            assert(upto.last() == (pairs@[i as int].0@, pairs@[i as int].1@));
            assert(plain(fields(object)));
        }
        i = i + 1;
    }
    assert(all.take(pairs@.len() as int) =~= all);
    print(object)
}

proof fn lemma_members_of(pairs: Seq<(Seq<char>, Seq<char>)>)
    ensures
        forall|key: Seq<char>| #[trigger]
            members_of(pairs).contains_key(key) <==> exists|i: int|
                0 <= i < pairs.len() && (#[trigger] pairs[i]).0 == key,
        forall|i: int|
            0 <= i < pairs.len() && (forall|j: int|
                i < j < pairs.len() ==> (#[trigger] pairs[j]).0 != pairs[i].0) ==> members_of(
                pairs,
            )[(#[trigger] pairs[i]).0] == Some(pairs[i].1),
    decreases pairs.len(),
{
    if pairs.len() > 0 {
        let rest = pairs.drop_last();
        let n = pairs.len() - 1;
        lemma_members_of(rest);
        assert(pairs[n] == pairs.last());
        assert forall|key: Seq<char>| #[trigger] members_of(pairs).contains_key(
            key,
        ) <==> exists|i: int| 0 <= i < pairs.len() && (#[trigger] pairs[i]).0 == key by {
            if members_of(rest).contains_key(key) {
                let i = choose|i: int| 0 <= i < rest.len() && (#[trigger] rest[i]).0 == key;
                assert(pairs[i].0 == key);
            }
            if exists|i: int| 0 <= i < pairs.len() && (#[trigger] pairs[i]).0 == key {
                let i = choose|i: int| 0 <= i < pairs.len() && (#[trigger] pairs[i]).0 == key;
                if i < n {
                    assert(rest[i].0 == key);
                }
            }
        }
        assert forall|i: int|
            0 <= i < pairs.len() && (forall|j: int|
                i < j < pairs.len() ==> (#[trigger] pairs[j]).0
                    != pairs[i].0) implies members_of(pairs)[(#[trigger] pairs[i]).0] == Some(
            pairs[i].1,
        ) by {
            if i < n {
                assert(pairs[n].0 != pairs[i].0);
                assert(rest[i] == pairs[i]);
                assert forall|j: int| i < j < rest.len() implies (#[trigger] rest[j]).0
                    != rest[i].0 by {
                    assert(rest[j] == pairs[j]);
                }
            }
        }
    }
}

/// What is written reads back: an object has exactly the keys that it was
/// given, each with the text that it was given last.
pub proof fn law_object_reads_back(
    pairs: Vec<(String, String)>,
    text: String,
    key: Seq<char>,
    i: int,
)
    requires
        call_ensures(object_text, (pairs,), text),
        0 <= i < pairs@.len(),
        forall|j: int| i < j < pairs@.len() ==> (#[trigger] pairs@[j]).0@ != pairs@[i].0@,
    ensures
        parsed(text@) is Some,
        text_member(parsed(text@)->0, pairs@[i].0@) == Some(pairs@[i].1@),
        parsed(text@)->0.contains_key(key) <==> exists|j: int|
            0 <= j < pairs@.len() && (#[trigger] pairs@[j]).0@ == key,
{
    let all = pair_views(pairs@);
    lemma_members_of(all);
    assert(all.len() == pairs@.len());
    assert(forall|j: int| 0 <= j < all.len() ==> #[trigger] all[j] == (pairs@[j].0@, pairs@[j].1@));
    assert(all[i].0 == pairs@[i].0@);
    assert forall|j: int| i < j < all.len() implies (#[trigger] all[j]).0 != all[i].0 by {
        assert(pairs@[j].0@ != pairs@[i].0@);
    }
    assert(members_of(all)[all[i].0] == Some(all[i].1));
    if exists|j: int| 0 <= j < pairs@.len() && (#[trigger] pairs@[j]).0@ == key {
        let j = choose|j: int| 0 <= j < pairs@.len() && (#[trigger] pairs@[j]).0@ == key;
        assert(all[j].0 == key);
    }
    if exists|j: int| 0 <= j < all.len() && (#[trigger] all[j]).0 == key {
        let j = choose|j: int| 0 <= j < all.len() && (#[trigger] all[j]).0 == key;
        assert(pairs@[j].0@ == key);
    }
}

} // verus!
