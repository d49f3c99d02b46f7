//! Text helpers: comparing, joining, splitting and prefix-stripping strings.
use vstd::prelude::*;

verus! {

/// The view of an optional borrowed text.
pub open spec fn str_view(text: Option<&str>) -> Option<Seq<char>> {
    match text {
        Some(t) => Some(t@),
        None => None,
    }
}

/// `String::push` appends one character and changes nothing else.
pub assume_specification [ String::push ](s: &mut String, c: char)
    ensures
        final(s)@ == old(s)@.push(c),
;

/// The characters of `s`, in order.
pub fn to_chars(s: &str) -> (v: Vec<char>)
    ensures
        v@ == s@,
{
    let mut v: Vec<char> = Vec::new();
    for c in it: s.chars()
        invariant
            v@ == it.seq().take(it.index() as int),
            it.seq() == s@,
    {
        v.push(c);
    }
    assert(v@ =~= s@);
    v
}

/// The text made of `chars[from..to]`.
pub fn from_chars(chars: &Vec<char>, from: usize, to: usize) -> (s: String)
    requires
        from <= to <= chars@.len(),
    ensures
        s@ == chars@.subrange(from as int, to as int),
{
    let mut s = String::new();
    let mut i: usize = from;
    while i < to
        invariant
            from <= i <= to <= chars@.len(),
            s@ == chars@.subrange(from as int, i as int),
        decreases to - i,
    {
        s.push(chars[i]);
        assert(chars@.subrange(from as int, i + 1) =~= chars@.subrange(from as int, i as int).push(
            chars@[i as int],
        ));
        i = i + 1;
    }
    s
}

/// Whether two texts hold the same characters.
pub fn same_text(a: &str, b: &str) -> (same: bool)
    ensures
        same == (a@ == b@),
{
    a.to_owned() == b.to_owned()
}

/// The text `a` followed by the text `b`.
pub fn join(a: &str, b: &str) -> (s: String)
    ensures
        s@ == a@ + b@,
{
    a.to_owned().concat(b)
}

// ---------------------------------------------------------------------
// Prefixes and separators
// ---------------------------------------------------------------------

/// What is left of `s` behind `prefix`, or `None` if `s` does not start
/// with it.
pub open spec fn stripped(s: Seq<char>, prefix: Seq<char>) -> Option<Seq<char>> {
    if prefix.is_prefix_of(s) {
        Some(s.skip(prefix.len() as int))
    } else {
        None
    }
}

/// Removes `prefix` from the front of `s`.
pub fn strip_prefix(s: &str, prefix: &str) -> (rest: Option<String>)
    ensures
        rest is Some <==> stripped(s@, prefix@) is Some,
        rest is Some ==> rest->0@ == stripped(s@, prefix@)->0,
{
    let text = to_chars(s);
    let head = to_chars(prefix);
    if head.len() > text.len() {
        return None;
    }
    let mut i: usize = 0;
    while i < head.len()
        invariant
            text@ == s@,
            head@ == prefix@,
            head@.len() <= text@.len(),
            i <= head@.len(),
            forall|j: int| 0 <= j < i ==> head@[j] == text@[j],
        decreases head@.len() - i,
    {
        if head[i] != text[i] {
            assert(s@.subrange(0, prefix@.len() as int)[i as int] != prefix@[i as int]);
            return None;
        }
        i = i + 1;
    }
    assert(prefix@ =~= s@.subrange(0, prefix@.len() as int));
    assert(s@.skip(prefix@.len() as int) =~= s@.subrange(prefix@.len() as int, s@.len() as int));
    Some(from_chars(&text, head.len(), text.len()))
}

/// The position of the first `sep` in `s` at or behind `from`, or the
/// length of `s` if there is none.
pub open spec fn next_separator(s: Seq<char>, sep: char, from: int) -> int
    decreases s.len() - from,
{
    if from < 0 || from >= s.len() {
        s.len() as int
    } else if s[from] == sep {
        from
    } else {
        next_separator(s, sep, from + 1)
    }
}

/// The pieces of `s` between separators, starting at `from`: there is
/// always one piece more than there are separators.
pub open spec fn pieces_from(s: Seq<char>, sep: char, from: int) -> Seq<Seq<char>>
    decreases s.len() - from,
{
    let end = next_separator(s, sep, from);
    if from < 0 || from > s.len() || end < from || end >= s.len() {
        seq![s.subrange(from, s.len() as int)]
    } else {
        seq![s.subrange(from, end)] + pieces_from(s, sep, end + 1)
    }
}

/// The pieces of `s` between separators.
pub open spec fn pieces(s: Seq<char>, sep: char) -> Seq<Seq<char>> {
    pieces_from(s, sep, 0)
}

proof fn lemma_next_separator(s: Seq<char>, sep: char, from: int)
    requires
        0 <= from <= s.len(),
    ensures
        from <= next_separator(s, sep, from) <= s.len(),
        next_separator(s, sep, from) < s.len() ==> s[next_separator(s, sep, from)] == sep,
        forall|i: int| from <= i < next_separator(s, sep, from) ==> s[i] != sep,
    decreases s.len() - from,
{
    if from < s.len() && s[from] != sep {
        lemma_next_separator(s, sep, from + 1);
    }
}

/// Text views of a list of strings.
pub open spec fn views(v: Seq<String>) -> Seq<Seq<char>> {
    v.map_values(|s: String| s@)
}

/// Splits `s` at every `sep`.
pub fn split(s: &str, sep: char) -> (parts: Vec<String>)
    ensures
        views(parts@) == pieces(s@, sep),
        parts@.len() > 0,
{
    let text = to_chars(s);
    let mut parts: Vec<String> = Vec::new();
    let mut from: usize = 0;
    let mut i: usize = 0;
    proof {
        assert(views(parts@) + pieces_from(s@, sep, 0) =~= pieces(s@, sep));
    }
    while i < text.len()
        invariant
            text@ == s@,
            from <= i <= text@.len(),
            next_separator(s@, sep, from as int) == next_separator(s@, sep, i as int),
            views(parts@) + pieces_from(s@, sep, from as int) == pieces(s@, sep),
        decreases text@.len() - i,
    {
        if text[i] == sep {
            let ghost before = views(parts@);
            parts.push(from_chars(&text, from, i));
            proof {
                let piece = s@.subrange(from as int, i as int);
                assert(views(parts@) =~= before.push(piece));
                assert(pieces_from(s@, sep, from as int) == seq![piece] + pieces_from(
                    s@,
                    sep,
                    i + 1,
                ));
                assert(views(parts@) + pieces_from(s@, sep, i + 1) =~= before + (seq![piece]
                    + pieces_from(s@, sep, i + 1)));
            }
            from = i + 1;
        }
        i = i + 1;
    }
    let ghost before = views(parts@);
    parts.push(from_chars(&text, from, text.len()));
    proof {
        let piece = s@.subrange(from as int, s@.len() as int);
        assert(views(parts@) =~= before.push(piece));
        assert(pieces_from(s@, sep, from as int) =~= seq![piece]);
        assert(views(parts@) =~= before + seq![piece]);
    }
    parts
}

/// A text without separators is one piece.
pub proof fn lemma_one_piece(s: Seq<char>, sep: char)
    requires
        forall|i: int| 0 <= i < s.len() ==> s[i] != sep,
    ensures
        pieces(s, sep) == seq![s],
{
    lemma_next_separator(s, sep, 0);
    assert(s.subrange(0, s.len() as int) =~= s);
}

/// Two texts with a separator between them have the pieces of the one, then
/// those of the other.
pub proof fn lemma_pieces_append(s: Seq<char>, sep: char, tail: Seq<char>)
    ensures
        pieces(s.push(sep) + tail, sep) == pieces(s, sep) + pieces(tail, sep),
{
    lemma_pieces_append_from(s, sep, tail, 0);
}

/// Behind the separator, the pieces are those of the tail.
proof fn lemma_pieces_of_tail(s: Seq<char>, sep: char, tail: Seq<char>, from: int)
    requires
        0 <= from <= tail.len(),
    ensures
        pieces_from(s.push(sep) + tail, sep, s.len() + 1 + from) == pieces_from(tail, sep, from),
    decreases tail.len() - from,
{
    let long = s.push(sep) + tail;
    let shift = s.len() + 1;
    lemma_next_separator(tail, sep, from);
    lemma_next_separator(long, sep, shift + from);
    let end = next_separator(tail, sep, from);
    let long_end = next_separator(long, sep, shift + from);
    assert(forall|i: int| 0 <= i < tail.len() ==> long[shift + i] == tail[i]);
    assert(long_end == shift + end) by {
        if long_end < shift + end {
            assert(tail[long_end - shift] == sep);
        }
        if shift + end < long_end {
            assert(long[shift + end] == sep);
        }
    }
    assert(long.subrange(shift + from, long_end) =~= tail.subrange(from, end));
    if end < tail.len() {
        lemma_pieces_of_tail(s, sep, tail, end + 1);
    }
}

proof fn lemma_pieces_append_from(s: Seq<char>, sep: char, tail: Seq<char>, from: int)
    requires
        0 <= from <= s.len(),
    ensures
        pieces_from(s.push(sep) + tail, sep, from) == pieces_from(s, sep, from) + pieces(tail, sep),
    decreases s.len() - from,
{
    let long = s.push(sep) + tail;
    lemma_next_separator(s, sep, from);
    lemma_next_separator(long, sep, from);
    let end = next_separator(s, sep, from);
    let long_end = next_separator(long, sep, from);
    assert(long[s.len() as int] == sep);
    assert(forall|i: int| 0 <= i < s.len() ==> long[i] == s[i]);
    assert(long_end == end) by {
        if long_end < end {
            assert(s[long_end] == sep);
        }
        if end < long_end {
            assert(long[end] == sep);
        }
    }
    assert(long.subrange(from, end) =~= s.subrange(from, end));
    if end < s.len() {
        lemma_pieces_append_from(s, sep, tail, end + 1);
        assert(pieces_from(long, sep, from) == seq![s.subrange(from, end)] + pieces_from(
            long,
            sep,
            end + 1,
        ));
        assert(pieces_from(long, sep, from) =~= pieces_from(s, sep, from) + pieces(tail, sep));
    } else {
        lemma_pieces_of_tail(s, sep, tail, 0);
        assert(pieces_from(s, sep, from) =~= seq![s.subrange(from, end)]);
        assert(pieces_from(long, sep, from) =~= pieces_from(s, sep, from) + pieces(tail, sep));
    }
}

/// Some pieces put together again, with separators between them.
pub open spec fn put_together(parts: Seq<Seq<char>>, sep: char) -> Seq<char>
    decreases parts.len(),
{
    if parts.len() == 0 {
        Seq::empty()
    } else if parts.len() == 1 {
        parts[0]
    } else {
        parts[0].push(sep) + put_together(parts.skip(1), sep)
    }
}

proof fn lemma_put_together(s: Seq<char>, sep: char, from: int)
    requires
        0 <= from <= s.len(),
    ensures
        put_together(pieces_from(s, sep, from), sep) == s.skip(from),
        pieces_from(s, sep, from).len() > 0,
        forall|i: int|
            0 <= i < pieces_from(s, sep, from).len() ==> !(#[trigger] pieces_from(
                s,
                sep,
                from,
            )[i]).contains(sep),
    decreases s.len() - from,
{
    lemma_next_separator(s, sep, from);
    let end = next_separator(s, sep, from);
    let parts = pieces_from(s, sep, from);
    let piece = s.subrange(from, end);
    assert(!piece.contains(sep)) by {
        if piece.contains(sep) {
            let i = choose|i: int| 0 <= i < piece.len() && piece[i] == sep;
            assert(s[from + i] == sep);
        }
    }
    if end < s.len() {
        lemma_put_together(s, sep, end + 1);
        let rest = pieces_from(s, sep, end + 1);
        assert(parts[0] == piece);
        assert(parts.skip(1) =~= rest);
        assert(piece.push(sep) + s.skip(end + 1) =~= s.skip(from));
        assert forall|i: int| 0 <= i < parts.len() implies !(#[trigger] parts[i]).contains(sep) by {
            if i > 0 {
                assert(parts[i] == rest[i - 1]);
            }
        }
    } else {
        assert(parts =~= seq![piece]);
        assert(piece =~= s.skip(from));
    }
}

/// Splitting loses nothing: no piece has a separator in it, and put together
/// with separators between them the pieces are the text.
pub proof fn law_pieces_make_up_the_text(s: &str, sep: char, parts: Vec<String>)
    requires
        call_ensures(split, (s, sep), parts),
    ensures
        put_together(views(parts@), sep) == s@,
        forall|i: int| 0 <= i < parts@.len() ==> !(#[trigger] parts@[i])@.contains(sep),
{
    lemma_put_together(s@, sep, 0);
    assert(s@.skip(0) =~= s@);
    assert forall|i: int| 0 <= i < parts@.len() implies !(#[trigger] parts@[i])@.contains(sep) by {
        assert(views(parts@)[i] == parts@[i]@);
    }
}

/// A prefix can be taken off exactly where it was put in front, and what is
/// left is what it was put in front of.
pub proof fn law_prefix_comes_off(
    prefix: &str,
    rest: &str,
    whole: String,
    text: &str,
    left: Option<String>,
)
    requires
        call_ensures(join, (prefix, rest), whole),
        text@ == whole@,
        call_ensures(strip_prefix, (text, prefix), left),
    ensures
        left matches Some(l) && l@ == rest@,
        whole@.len() == prefix@.len() + rest@.len(),
{
    assert(whole@.subrange(0, prefix@.len() as int) =~= prefix@);
    assert(whole@.skip(prefix@.len() as int) =~= rest@);
}

/// Where a prefix comes off, the text is the prefix and what is left; where
/// none does, no text behind the prefix makes up the text.
pub proof fn law_stripping_is_exact(s: &str, prefix: &str, left: Option<String>, rest: Seq<char>)
    requires
        call_ensures(strip_prefix, (s, prefix), left),
    ensures
        left matches Some(l) ==> s@ == prefix@ + l@,
        left is None ==> s@ != prefix@ + rest,
{
    if let Some(l) = left {
        assert(s@ =~= prefix@ + l@);
    } else if s@ == prefix@ + rest {
        assert(prefix@ =~= s@.subrange(0, prefix@.len() as int));
    }
}

/// A text survives being taken apart into characters, and any part of it is
/// made of the characters in between.
pub proof fn law_characters(
    s: &str,
    chars: Vec<char>,
    from: usize,
    to: usize,
    part: String,
    other: &str,
    same: bool,
)
    requires
        call_ensures(to_chars, (s,), chars),
        from <= to <= chars@.len(),
        call_ensures(from_chars, (&chars, from, to), part),
        call_ensures(same_text, (s, other), same),
    ensures
        from == 0 && to == chars@.len() ==> part@ == s@,
        part@.len() == to - from,
        forall|i: int| 0 <= i < part@.len() ==> #[trigger] part@[i] == s@[from + i],
        same <==> s@.len() == other@.len() && forall|i: int|
            0 <= i < s@.len() ==> #[trigger] s@[i] == other@[i],
{
    if s@.len() == other@.len() && forall|i: int| 0 <= i < s@.len() ==> #[trigger] s@[i] == other@[i] {
        assert(s@ =~= other@);
    }
    if from == 0 && to == chars@.len() {
        assert(part@ =~= s@);
    }
}

} // verus!
