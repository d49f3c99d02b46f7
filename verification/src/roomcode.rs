//! Room code and viewer ID generation.
use vstd::prelude::*;

verus! {

/// Uppercase alphanumeric characters, excluding easily confused ones (0/O, 1/I/L).
pub const ALPHABET: &'static str = "ABCDEFGHJKMNPQRSTUVWXYZ23456789";

/// Internal identifier alphabet used to distinguish viewers on the host side.
/// Never shown to users, so it doesn't need the room-code alphabet's
/// readability constraints.
pub const VIEWER_ID_ALPHABET: &'static str = "abcdefghijklmnopqrstuvwxyz0123456789";

/// How many characters a room code has.
pub const ROOM_CODE_LEN: usize = 6;

/// How many characters a viewer ID has.
pub const VIEWER_ID_LEN: usize = 10;

/// Whether `s` is `len` characters out of `alphabet`.
pub open spec fn spelled_with(s: Seq<char>, alphabet: Seq<char>, len: nat) -> bool {
    s.len() == len && forall|i: int| 0 <= i < s.len() ==> alphabet.contains(#[trigger] s[i])
}

/// Whether `s` could be a generated room code.
pub open spec fn is_room_code(s: Seq<char>) -> bool {
    spelled_with(s, ALPHABET@, ROOM_CODE_LEN as nat)
}

/// Whether `s` could be a generated viewer ID.
pub open spec fn is_viewer_id(s: Seq<char>) -> bool {
    spelled_with(s, VIEWER_ID_ALPHABET@, VIEWER_ID_LEN as nat)
}

/// A number drawn by `rand::random_range` from the range `0..bound`, which
/// must not be empty. Which one comes up is left to chance; that it lies in
/// the range is all that holds of every draw.
#[verifier::external_body]
fn random_index(bound: usize) -> (index: usize)
    requires
        bound > 0,
    ensures
        index < bound,
{
    rand::random_range(0..bound)
}

/// The characters of `alphabet` at the drawn positions.
pub fn spell(alphabet: &str, draws: &Vec<usize>) -> (s: String)
    requires
        forall|i: int| 0 <= i < draws@.len() ==> #[trigger] draws@[i] < alphabet@.len(),
    ensures
        s@ == Seq::new(draws@.len(), |i: int| alphabet@[draws@[i] as int]),
{
    let mut s = String::new();
    let mut i: usize = 0;
    while i < draws.len()
        invariant
            i <= draws@.len(),
            forall|j: int| 0 <= j < draws@.len() ==> #[trigger] draws@[j] < alphabet@.len(),
            s@ == Seq::new(i as nat, |j: int| alphabet@[draws@[j] as int]),
        decreases draws@.len() - i,
    {
        let draw: usize = draws[i];
        s.push(alphabet.get_char(draw));
        i = i + 1;
        assert(s@ =~= Seq::new(i as nat, |j: int| alphabet@[draws@[j] as int]));
    }
    s
}

/// Draws `len` random characters of `alphabet`.
fn draw_text(alphabet: &str, len: usize) -> (s: String)
    requires
        alphabet@.len() > 0,
    ensures
        spelled_with(s@, alphabet@, len as nat),
{
    let letters: usize = alphabet.unicode_len();
    let mut draws: Vec<usize> = Vec::new();
    let mut i: usize = 0;
    while i < len
        invariant
            i <= len,
            letters == alphabet@.len(),
            letters > 0,
            draws@.len() == i,
            forall|j: int| 0 <= j < i ==> #[trigger] draws@[j] < alphabet@.len(),
        decreases len - i,
    {
        draws.push(random_index(letters));
        i = i + 1;
    }
    let s = spell(alphabet, &draws);
    proof {
        assert forall|j: int| 0 <= j < s@.len() implies alphabet@.contains(#[trigger] s@[j]) by {
            assert(s@[j] == alphabet@[draws@[j] as int]);
        }
    }
    s
}

/// Generates a 6-character room code.
pub fn generate() -> (code: String)
    ensures
        is_room_code(code@),
{
    proof {
        reveal_strlit("ABCDEFGHJKMNPQRSTUVWXYZ23456789");
    }
    draw_text(ALPHABET, ROOM_CODE_LEN)
}

/// Generates a viewer ID.
pub fn generate_viewer_id() -> (id: String)
    ensures
        is_viewer_id(id@),
{
    proof {
        reveal_strlit("abcdefghijklmnopqrstuvwxyz0123456789");
    }
    draw_text(VIEWER_ID_ALPHABET, VIEWER_ID_LEN)
}

/// A room code has six characters, none of them easily confused with
/// another: neither `0` nor `O`, and none of `1`, `I` and `L`.
pub proof fn law_room_code_is_readable(code: Seq<char>)
    requires
        is_room_code(code),
    ensures
        code.len() == 6,
        forall|i: int| 0 <= i < 6 ==> #[trigger] code[i] != '0' && code[i] != 'O' && code[i] != '1'
            && code[i] != 'I' && code[i] != 'L',
{
    reveal_strlit("ABCDEFGHJKMNPQRSTUVWXYZ23456789");
    assert forall|i: int| 0 <= i < 6 implies #[trigger] code[i] != '0' && code[i] != 'O' && code[i]
        != '1' && code[i] != 'I' && code[i] != 'L' by {
        let at = choose|j: int| 0 <= j < ALPHABET@.len() && ALPHABET@[j] == code[i];
        assert(ALPHABET@[at] == code[i]);
    }
}

/// Whether a character is an upper-case letter or a digit.
pub open spec fn is_upper_or_digit(c: char) -> bool {
    'A' <= c <= 'Z' || '0' <= c <= '9'
}

/// Whether a character is a lower-case letter or a digit.
pub open spec fn is_lower_or_digit(c: char) -> bool {
    'a' <= c <= 'z' || '0' <= c <= '9'
}

/// Whatever comes up, a room code has six characters, upper-case letters and
/// digits that are not easily confused, and a viewer ID has ten, lower-case
/// letters and digits.
pub proof fn law_generated_codes(code: String, id: String)
    requires
        call_ensures(generate, (), code),
        call_ensures(generate_viewer_id, (), id),
    ensures
        code@.len() == 6,
        forall|i: int| 0 <= i < 6 ==> is_upper_or_digit(#[trigger] code@[i]) && code@[i] != '0'
            && code@[i] != 'O' && code@[i] != '1' && code@[i] != 'I' && code@[i] != 'L',
        id@.len() == 10,
        forall|i: int| 0 <= i < 10 ==> is_lower_or_digit(#[trigger] id@[i]),
{
    law_room_code_is_readable(code@);
    reveal_strlit("ABCDEFGHJKMNPQRSTUVWXYZ23456789");
    reveal_strlit("abcdefghijklmnopqrstuvwxyz0123456789");
    assert forall|i: int| 0 <= i < 6 implies is_upper_or_digit(#[trigger] code@[i]) by {
        let at = choose|j: int| 0 <= j < ALPHABET@.len() && ALPHABET@[j] == code@[i];
        assert(ALPHABET@[at] == code@[i]);
    }
    assert forall|i: int| 0 <= i < 10 implies is_lower_or_digit(#[trigger] id@[i]) by {
        let at = choose|j: int|
            0 <= j < VIEWER_ID_ALPHABET@.len() && VIEWER_ID_ALPHABET@[j] == id@[i];
        assert(VIEWER_ID_ALPHABET@[at] == id@[i]);
    }
}

/// Every readable letter and digit can come up in a room code, and every
/// lower-case letter and digit in a viewer ID.
pub proof fn law_alphabets_are_full(c: char)
    ensures
        is_upper_or_digit(c) && c != '0' && c != 'O' && c != '1' && c != 'I' && c != 'L' ==> ALPHABET@.contains(
            c,
        ),
        is_lower_or_digit(c) ==> VIEWER_ID_ALPHABET@.contains(c),
        ALPHABET@.len() == 31,
        VIEWER_ID_ALPHABET@.len() == 36,
{
    reveal_strlit("ABCDEFGHJKMNPQRSTUVWXYZ23456789");
    reveal_strlit("abcdefghijklmnopqrstuvwxyz0123456789");
    let a = ALPHABET@;
    let v = VIEWER_ID_ALPHABET@;
    if 'A' <= c <= 'H' {
        assert(a[c as int - 'A' as int] == c);
    } else if c == 'J' || c == 'K' {
        assert(a[8] == 'J' && a[9] == 'K');
    } else if c == 'M' || c == 'N' {
        assert(a[10] == 'M' && a[11] == 'N');
    } else if 'P' <= c <= 'Z' {
        assert(a[12 + (c as int - 'P' as int)] == c);
    } else if '2' <= c <= '9' {
        assert(a[23 + (c as int - '2' as int)] == c);
    }
    if 'a' <= c <= 'z' {
        assert(v[c as int - 'a' as int] == c);
    } else if '0' <= c <= '9' {
        assert(v[26 + (c as int - '0' as int)] == c);
    }
}

/// A text is spelled draw by draw: each character is the one at the drawn
/// position.
pub proof fn law_spelling(alphabet: &str, draws: Vec<usize>, s: String, i: int)
    requires
        forall|j: int| 0 <= j < draws@.len() ==> #[trigger] draws@[j] < alphabet@.len(),
        call_ensures(spell, (alphabet, &draws), s),
    ensures
        s@.len() == draws@.len(),
        0 <= i < draws@.len() ==> s@[i] == alphabet@[draws@[i] as int],
{
}

} // verus!
