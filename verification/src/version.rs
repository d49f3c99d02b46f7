//! Versions of the host build, and which of them a server accepts.
use vstd::prelude::*;

use crate::decimal::{
    decimal, is_digit, lemma_decimal_is_digits, lemma_decimal_reads_back, parse_u32, unsigned_up_to,
};
use crate::text::{lemma_one_piece, lemma_pieces_append, pieces, split, views};

verus! {

/// The number that one component of a version spells; 0 if it spells none.
pub open spec fn component_value(component: Seq<char>) -> u32 {
    match unsigned_up_to(component, u32::MAX as int) {
        Some(v) => v as u32,
        None => 0,
    }
}

/// The `n`-th component of a list of them; 0 if there are not as many.
pub open spec fn component(parts: Seq<Seq<char>>, n: int) -> u32 {
    if n < parts.len() {
        component_value(parts[n])
    } else {
        0
    }
}

/// The major, minor and patch numbers of a version.
pub open spec fn version_of(v: Seq<char>) -> (u32, u32, u32) {
    let parts = pieces(v, '.');
    (component(parts, 0), component(parts, 1), component(parts, 2))
}

/// Whether version `a` is `b` or newer.
pub open spec fn at_least(a: (u32, u32, u32), b: (u32, u32, u32)) -> bool {
    a.0 > b.0 || (a.0 == b.0 && (a.1 > b.1 || (a.1 == b.1 && a.2 >= b.2)))
}

fn read_component(parts: &Vec<String>, n: usize) -> (value: u32)
    ensures
        value == component(views(parts@), n as int),
{
    if n < parts.len() {
        match parse_u32(parts[n].as_str()) {
            Some(v) => v,
            None => 0,
        }
    } else {
        0
    }
}

/// Parses a `major.minor.patch` version string loosely: missing or
/// non-numeric components default to 0, so "0.2" and "0.2.0" compare equal
/// and a garbled string just sorts as very old rather than erroring.
pub fn parse_version(v: &str) -> (version: (u32, u32, u32))
    ensures
        version == version_of(v@),
{
    let parts = split(v, '.');
    (read_component(&parts, 0), read_component(&parts, 1), read_component(&parts, 2))
}

/// Whether version `a` is `b` or newer, component by component.
pub fn version_at_least(a: (u32, u32, u32), b: (u32, u32, u32)) -> (newer: bool)
    ensures
        newer == at_least(a, b),
{
    if a.0 != b.0 {
        a.0 > b.0
    } else if a.1 != b.1 {
        a.1 > b.1
    } else {
        a.2 >= b.2
    }
}

/// A missing component counts as 0: appending `.0` to a version changes
/// nothing, so "0.2" and "0.2.0" are the same version.
pub proof fn law_missing_components_are_zero(v: Seq<char>)
    ensures
        version_of(v.push('.').push('0')) == version_of(v),
{
    let tail = seq!['0'];
    assert(v.push('.').push('0') =~= v.push('.') + tail);
    lemma_pieces_append(v, '.', tail);
    lemma_one_piece(tail, '.');
    assert(component_value(tail) == 0) by {
        assert(tail.drop_last() =~= Seq::<char>::empty());
        reveal_with_fuel(crate::decimal::digits_value, 2);
    }
    let parts = pieces(v, '.');
    assert(parts + seq![tail] =~= parts.push(tail));
    assert forall|n: int| 0 <= n implies component(parts.push(tail), n) == component(parts, n) by {
        if n == parts.len() {
            assert(parts.push(tail)[n] == tail);
        }
    }
    assert(component(parts.push(tail), 0) == component(parts, 0));
    assert(component(parts.push(tail), 1) == component(parts, 1));
    assert(component(parts.push(tail), 2) == component(parts, 2));
}

/// A component that is a number in decimal.
proof fn lemma_decimal_component(n: u32)
    ensures
        pieces(decimal(n as nat), '.') == seq![decimal(n as nat)],
        component_value(decimal(n as nat)) == n,
{
    lemma_decimal_is_digits(n as nat);
    lemma_decimal_reads_back(n as nat);
    assert forall|i: int| 0 <= i < decimal(n as nat).len() implies decimal(n as nat)[i] != '.' by {
        assert(is_digit(decimal(n as nat)[i]));
    }
    lemma_one_piece(decimal(n as nat), '.');
}

/// A version of one, two or three numbers in decimal, with dots between them,
/// reads back as those numbers; whatever comes behind a further dot makes no
/// difference.
pub proof fn law_versions_read_back(major: u32, minor: u32, patch: u32, rest: Seq<char>)
    ensures
        ({
            let one = decimal(major as nat);
            let two = one.push('.') + decimal(minor as nat);
            let three = two.push('.') + decimal(patch as nat);
            &&& version_of(one) == (major, 0u32, 0u32)
            &&& version_of(two) == (major, minor, 0u32)
            &&& version_of(three) == (major, minor, patch)
            &&& version_of(three.push('.') + rest) == (major, minor, patch)
        }),
{
    let (a, b, c) = (decimal(major as nat), decimal(minor as nat), decimal(patch as nat));
    let two = a.push('.') + b;
    let three = two.push('.') + c;
    lemma_decimal_component(major);
    lemma_decimal_component(minor);
    lemma_decimal_component(patch);
    lemma_pieces_append(a, '.', b);
    lemma_pieces_append(two, '.', c);
    lemma_pieces_append(three, '.', rest);
    assert(pieces(two, '.') =~= seq![a, b]);
    assert(pieces(three, '.') =~= seq![a, b, c]);
}

/// A version none of whose components is a number is the oldest: every
/// version is at least as new.
pub proof fn law_garbled_version_is_oldest(v: Seq<char>, other: Seq<char>)
    requires
        forall|n: int|
            0 <= n < pieces(v, '.').len() ==> unsigned_up_to(
                #[trigger] pieces(v, '.')[n],
                u32::MAX as int,
            ) is None,
    ensures
        version_of(v) == (0u32, 0u32, 0u32),
        at_least(version_of(other), version_of(v)),
{
    let parts = pieces(v, '.');
    assert forall|n: int| 0 <= n implies component(parts, n) == 0 by {
        if n < parts.len() {
            assert(component_value(parts[n]) == 0);
        }
    }
    assert(component(parts, 0) == 0 && component(parts, 1) == 0 && component(parts, 2) == 0);
}

/// Versions are totally ordered: of two, one is at least as new as the
/// other, both are only if they are the same, and newer than newer is newer.
pub proof fn law_versions_are_ordered(a: (u32, u32, u32), b: (u32, u32, u32), c: (u32, u32, u32))
    ensures
        at_least(a, b) || at_least(b, a),
        at_least(a, b) && at_least(b, a) <==> a == b,
        at_least(a, b) && at_least(b, c) ==> at_least(a, c),
{
}

/// A version is newer if its first number that differs is larger: as if its
/// three numbers were the digits of one.
pub proof fn law_first_difference_decides(
    a: (u32, u32, u32),
    b: (u32, u32, u32),
    newer: bool,
)
    requires
        call_ensures(version_at_least, (a, b), newer),
    ensures
        newer <==> (a.0 * 0x1_0000_0000 + a.1) * 0x1_0000_0000 + a.2 >= (b.0 * 0x1_0000_0000 + b.1)
            * 0x1_0000_0000 + b.2,
{
}

/// A version as a host writes it is read as the numbers it is made of, with
/// or without its last ones.
pub proof fn law_written_versions_are_read(
    major: u32,
    minor: u32,
    patch: u32,
    rest: Seq<char>,
    texts: (&str, &str, &str, &str),
    one: (u32, u32, u32),
    two: (u32, u32, u32),
    three: (u32, u32, u32),
    four: (u32, u32, u32),
)
    requires
        texts.0@ == decimal(major as nat),
        texts.1@ == texts.0@.push('.') + decimal(minor as nat),
        texts.2@ == texts.1@.push('.') + decimal(patch as nat),
        texts.3@ == texts.2@.push('.') + rest,
        call_ensures(parse_version, (texts.0,), one),
        call_ensures(parse_version, (texts.1,), two),
        call_ensures(parse_version, (texts.2,), three),
        call_ensures(parse_version, (texts.3,), four),
    ensures
        one == (major, 0u32, 0u32),
        two == (major, minor, 0u32),
        three == (major, minor, patch),
        four == (major, minor, patch),
{
    law_versions_read_back(major, minor, patch, rest);
}

/// A component that is no number counts as 0 and leaves the others alone.
pub proof fn law_garbled_component_is_zero(
    major: u32,
    garbled: Seq<char>,
    patch: u32,
    text: &str,
    version: (u32, u32, u32),
)
    requires
        unsigned_up_to(garbled, u32::MAX as int) is None,
        forall|i: int| 0 <= i < garbled.len() ==> garbled[i] != '.',
        text@ == (decimal(major as nat).push('.') + garbled).push('.') + decimal(patch as nat),
        call_ensures(parse_version, (text,), version),
    ensures
        version == (major, 0u32, patch),
{
    let (a, c) = (decimal(major as nat), decimal(patch as nat));
    let two = a.push('.') + garbled;
    lemma_decimal_component(major);
    lemma_decimal_component(patch);
    lemma_one_piece(garbled, '.');
    lemma_pieces_append(a, '.', garbled);
    lemma_pieces_append(two, '.', c);
    assert(pieces(text@, '.') =~= seq![a, garbled, c]);
}

} // verus!
