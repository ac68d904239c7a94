//! Note and device identifiers: 128-bit UUID values, their text form, and
//! the calls into `uuid` that make and read them.
use vstd::prelude::*;

use crate::note::NoteId;
use crate::text::push_char;

verus! {

/// The lowercase hexadecimal digit for a value below sixteen.
pub open spec fn hex_digit(n: nat) -> char {
    if n < 10 {
        (('0' as u32) + n) as char
    } else {
        (('a' as u32) + (n - 10)) as char
    }
}

/// The `k`-th hexadecimal digit of an identifier, counted from the most
/// significant end.
pub open spec fn id_nibble(id: u128, k: int) -> nat {
    ((id >> ((4 * (31 - k)) as u128)) & 0xf) as nat
}

/// Whether a character position of the hyphenated form holds a hyphen.
pub open spec fn is_hyphen_pos(i: int) -> bool {
    i == 8 || i == 13 || i == 18 || i == 23
}

/// The digit index shown at a non-hyphen character position.
pub open spec fn digit_index(i: int) -> int {
    if i < 8 {
        i
    } else if i < 13 {
        i - 1
    } else if i < 18 {
        i - 2
    } else if i < 23 {
        i - 3
    } else {
        i - 4
    }
}

/// The hyphenated lowercase form of a UUID: 8-4-4-4-12 hexadecimal digits.
pub open spec fn uuid_text(id: u128) -> Seq<char> {
    Seq::new(
        36,
        |i: int|
            if is_hyphen_pos(i) {
                '-'
            } else {
                hex_digit(id_nibble(id, digit_index(i)))
            },
    )
}

/// What `Uuid::parse_str` gives for a text: the UUID's 128-bit value, or the
/// message of its error.
pub uninterp spec fn uuid_parse_result(s: Seq<char>) -> Result<u128, Seq<char>>;

/// Reads a UUID in any of the forms `uuid` accepts.
/// Trusted: `uuid::Uuid::parse_str`. Its result, taken as the 128-bit value
/// or the error's message, is a function of the text alone; a text in the
/// hyphenated form that `Uuid`'s `Display` writes reads back as that value,
/// as the crate's documentation shows.
#[verifier::external_body]
pub(crate) fn parse_uuid(s: &str) -> (r: Result<NoteId, String>)
    ensures
        r is Ok ==> uuid_parse_result(s@) == Ok::<u128, Seq<char>>(r->Ok_0),
        r is Err ==> uuid_parse_result(s@) == Err::<u128, Seq<char>>(r->Err_0@),
        forall|u: NoteId| #[trigger] uuid_text(u) == s@ ==> (r is Ok && r->Ok_0 == u),
{
    match uuid::Uuid::parse_str(s) {
        Ok(u) => Ok(u.as_u128()),
        Err(e) => Err(e.to_string()),
    }
}

/// A fresh time-ordered identifier.
/// Trusted: `uuid::Uuid::now_v7`, which reads the clock and a random source;
/// the version field of the result is 7.
#[verifier::external_body]
pub(crate) fn new_note_id() -> (id: NoteId)
    ensures
        (id >> 76u128) & 0xf == 7,
{
    uuid::Uuid::now_v7().as_u128()
}

fn hex_digit_exec(n: u128) -> (c: char)
    requires
        n < 16,
    ensures
        c == hex_digit(n as nat),
{
    if n < 10 {
        ((n as u8) + 48u8) as char
    } else {
        ((n as u8) + 87u8) as char
    }
}

/// The hyphenated lowercase text of an identifier, as `Uuid`'s `Display`
/// writes it.
pub fn uuid_to_string(id: NoteId) -> (s: String)
    ensures
        s@ == uuid_text(id),
{
    let mut s = String::new();
    let mut k: u32 = 0;
    let ghost mut pos: int = 0;
    while k < 32
        invariant
            k <= 32,
            pos == k + (if k > 20 {
                4int
            } else if k > 16 {
                3int
            } else if k > 12 {
                2int
            } else if k > 8 {
                1int
            } else {
                0int
            }),
            s@ == uuid_text(id).take(pos),
        decreases 32 - k,
    {
        if k == 8 || k == 12 || k == 16 || k == 20 {
            push_char(&mut s, '-');
            proof {
                assert(is_hyphen_pos(pos));
                pos = pos + 1;
                assert(s@ =~= uuid_text(id).take(pos));
            }
        }
        let shift = (4 * (31 - k)) as u128;
        let n = (id >> shift) & 0xf;
        assert((id >> shift) & 0xf < 16) by (bit_vector);
        let c = hex_digit_exec(n);
        push_char(&mut s, c);
        proof {
            assert(!is_hyphen_pos(pos));
            assert(digit_index(pos) == k);
            pos = pos + 1;
            assert(s@ =~= uuid_text(id).take(pos));
        }
        k = k + 1;
    }
    assert(uuid_text(id).take(36) =~= uuid_text(id));
    s
}

} // verus!
