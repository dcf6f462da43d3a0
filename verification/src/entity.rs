//! Coded values: a text that is exactly one entity reference, `&name;`.

use crate::error::{ErrorKind, ParseError};
use crate::token::{decoded, TokenStream};
use vstd::prelude::*;
use vstd::slice::slice_subrange;

verus! {

/// The byte that opens an entity reference, `&`.
pub const AMPERSAND: u8 = 0x26;

/// The byte that closes an entity reference, `;`.
pub const SEMICOLON: u8 = 0x3b;

/// Whether `raw` is one entity reference and nothing else: it opens with
/// `&`, closes with `;`, and holds neither byte anywhere between.
pub open spec fn is_entity(raw: Seq<u8>) -> bool {
    &&& raw.len() >= 2
    &&& raw[0] == AMPERSAND
    &&& raw.last() == SEMICOLON
    &&& forall|i: int| 1 <= i < raw.len() ==> raw[i] != AMPERSAND
    &&& forall|i: int| 0 <= i < raw.len() - 1 ==> raw[i] != SEMICOLON
}

/// What stands between the two markers.
pub open spec fn entity_body(raw: Seq<u8>) -> Seq<u8> {
    raw.subrange(1, raw.len() - 1)
}

/// `memchr::memchr`: the index of the first occurrence of `needle` in
/// `haystack`, or `None` if there is none.
#[verifier::external_body]
fn find_byte(needle: u8, haystack: &[u8]) -> (found: Option<usize>)
    ensures
        match found {
            Some(i) => i < haystack@.len() && haystack@[i as int] == needle && forall|j: int|
                0 <= j < i ==> haystack@[j] != needle,
            None => forall|j: int| 0 <= j < haystack@.len() ==> haystack@[j] != needle,
        },
{
    memchr::memchr(needle, haystack)
}

/// Takes a coded value like `&ent;` and returns `ent`, decoded in the
/// encoding of the stream. Anything but a single reference is an error at
/// the offset that the stream has reached.
pub fn parse_single_entity(raw: &[u8], stream: &TokenStream) -> (r: Result<String, ParseError>)
    ensures
        match r {
            Ok(name) => is_entity(raw@) && name@ == decoded(stream.codec(), entity_body(raw@)),
            Err(e) => !is_entity(raw@) && e == (ParseError {
                kind: ErrorKind::MalformedEntity,
                offset: stream.position(),
            }),
        },
{
    let n = raw.len();
    let failure = ParseError { kind: ErrorKind::MalformedEntity, offset: stream.buffer_position() };
    if n == 0 || raw[0] != AMPERSAND || raw[n - 1] != SEMICOLON {
        return Err(failure);
    }
    let tail = slice_subrange(raw, 1, n);
    match find_byte(AMPERSAND, tail) {
        Some(i) => {
            assert(raw@[i + 1] == tail@[i as int]);
            return Err(failure);
        },
        None => {
            assert forall|i: int| 1 <= i < raw@.len() implies raw@[i] != AMPERSAND by {
                assert(raw@[i] == tail@[i - 1]);
            }
        },
    }
    let head = slice_subrange(raw, 0, n - 1);
    match find_byte(SEMICOLON, head) {
        Some(i) => {
            assert(raw@[i as int] == head@[i as int]);
            return Err(failure);
        },
        None => {
            assert forall|i: int| 0 <= i < raw@.len() - 1 implies raw@[i] != SEMICOLON by {
                assert(raw@[i] == head@[i]);
            }
        },
    }
    Ok(stream.decode(slice_subrange(raw, 1, n - 1)))
}

} // verus!
