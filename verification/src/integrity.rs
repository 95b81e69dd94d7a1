//! Tags on the messages that ask for a session or to join one, by which the server
//! sees that they were not altered on the way.
//!
//! A tag is the HMAC-SHA256 of the message's fields under the key that the peer
//! presents to the server, in hexadecimal.

use vstd::prelude::*;
use vstd::string::StringSliceAdditionalSpecFns;
use vstd::utf8::{encode_utf8, encode_utf8_decode_utf8};

use crate::entry::optional_text;
use crate::identity::{fingerprint_text, hex_text, sha256_digest};
use crate::wire::{byte_range, le_bytes, lemma_le_bytes_len, lemma_le_round_trip};

verus! {

/// How many bytes SHA-256 takes in at a time.
pub const BLOCK_LENGTH: usize = 64;

/// A key as HMAC uses it: a long one is replaced by its digest, and zeros fill up
/// the block.
pub open spec fn block_key(key: Seq<u8>) -> Seq<u8> {
    let short = if key.len() > BLOCK_LENGTH {
        sha256_digest(key)
    } else {
        key
    };
    Seq::new(
        BLOCK_LENGTH as nat,
        |i: int|
            if i < short.len() {
                short[i]
            } else {
                0
            },
    )
}

/// The HMAC of a message with SHA-256, as RFC 2104 defines it.
pub open spec fn hmac_sha256(key: Seq<u8>, message: Seq<u8>) -> Seq<u8> {
    let inner = block_key(key).map_values(|b: u8| b ^ 0x36u8);
    let outer = block_key(key).map_values(|b: u8| b ^ 0x5cu8);
    sha256_digest(outer + sha256_digest(inner + message))
}

/// `hmac::Hmac` over `sha2::Sha256`: `new_from_slice`, `chain_update` and `finalize`.
///
/// Claimed of it: it takes a key of any length, and gives the HMAC of RFC 2104 over
/// the same SHA-256, which has 32 bytes.
#[verifier::external_body]
fn hmac_bytes(key: &[u8], message: &[u8]) -> (tag: Vec<u8>)
    ensures
        tag@ == hmac_sha256(key@, message@),
        tag@.len() == 32,
{
    let mac = <hmac::Hmac<sha2::Sha256> as hmac::Mac>::new_from_slice(key).expect("HMAC key");
    hmac::Mac::finalize(hmac::Mac::chain_update(mac, message)).into_bytes().to_vec()
}

/// The mark of a host's request in what is signed.
pub const CREATE_KIND: u8 = 1;

/// The mark of a viewer's request in what is signed.
pub const JOIN_KIND: u8 = 2;

/// What is signed of a message with two fields: the mark of its kind, the length of
/// the first field, and both fields.
pub open spec fn signed_fields(kind: u8, first: Seq<char>, second: Seq<char>) -> Seq<u8> {
    seq![kind] + le_bytes(encode_utf8(first).len(), 8) + encode_utf8(first) + encode_utf8(second)
}

/// The tag of a message with two fields under `key`.
pub open spec fn tag_of(
    key: Seq<char>,
    kind: u8,
    first: Seq<char>,
    second: Seq<char>,
) -> Seq<char> {
    hex_text(hmac_sha256(encode_utf8(key), signed_fields(kind, first, second)))
}

/// The eight bytes of `n`, least significant first.
fn length_bytes(n: u64) -> (bytes: Vec<u8>)
    ensures
        bytes@ == le_bytes(n as nat, 8),
{
    let mut bytes: Vec<u8> = Vec::new();
    let mut left: u64 = n;
    while bytes.len() < 8
        invariant
            bytes@.len() <= 8,
            le_bytes(n as nat, 8) == bytes@ + le_bytes(left as nat, (8 - bytes@.len()) as nat),
        decreases 8 - bytes@.len(),
    {
        let ghost before = bytes@;
        let ghost rest = le_bytes((left / 256) as nat, (7 - before.len()) as nat);
        let low: u8 = (left % 256) as u8;
        bytes.push(low);
        assert(before + (seq![low] + rest) =~= bytes@ + rest);
        left = left / 256;
    }
    assert(bytes@ + le_bytes(left as nat, 0) =~= bytes@);
    bytes
}

/// Writes what is signed of a message with two fields.
fn sign_fields(kind: u8, first: &str, second: &str) -> (bytes: Vec<u8>)
    ensures
        bytes@ == signed_fields(kind, first@, second@),
{
    let mut first_bytes = first.as_bytes_vec();
    let mut second_bytes = second.as_bytes_vec();
    let mut bytes: Vec<u8> = vec![kind];
    let mut length = length_bytes(first_bytes.len() as u64);
    assert(bytes@ =~= seq![kind]);
    bytes.append(&mut length);
    bytes.append(&mut first_bytes);
    bytes.append(&mut second_bytes);
    bytes
}

/// The HMAC-SHA256 of a message under a key, in hexadecimal.
pub fn hmac_text(key: &[u8], message: &[u8]) -> (text: String)
    ensures
        text@ == hex_text(hmac_sha256(key@, message@)),
{
    let tag = hmac_bytes(key, message);
    fingerprint_text(tag.as_slice())
}

/// The tag of a message with two fields under `key`.
pub fn make_tag(key: &str, kind: u8, first: &str, second: &str) -> (tag: String)
    ensures
        tag@ == tag_of(key@, kind, first@, second@),
        tag@ == hex_text(hmac_sha256(encode_utf8(key@), signed_fields(kind, first@, second@))),
{
    let signed = sign_fields(kind, first, second);
    let key_bytes = key.as_bytes_vec();
    hmac_text(key_bytes.as_slice(), signed.as_slice())
}

/// Whether the tag that a message carries, if it carries one, is the message's own
/// under the key that the peer presented.  Without a key no tag is.
pub open spec fn tag_holds(
    key: Option<Seq<char>>,
    tag: Option<Seq<char>>,
    kind: u8,
    first: Seq<char>,
    second: Seq<char>,
) -> bool {
    match (tag, key) {
        (None, _) => true,
        (Some(t), Some(k)) => t == tag_of(k, kind, first, second),
        (Some(_), None) => false,
    }
}

/// Checks the tag that a message carries.
pub fn check_tag(
    key: Option<&String>,
    tag: &Option<String>,
    kind: u8,
    first: &str,
    second: &str,
) -> (holds: bool)
    ensures
        holds == tag_holds(
            (match key {
                Some(k) => Some(k@),
                None => None,
            }),
            optional_text(*tag),
            kind,
            first@,
            second@,
        ),
{
    match tag {
        None => true,
        Some(t) => match key {
            Some(k) => *t == make_tag(k.as_str(), kind, first, second),
            None => false,
        },
    }
}

/// What is signed tells every message from every other: its kind and both its fields
/// can be read from it.
pub proof fn lemma_signed_fields_differ(
    kind: u8,
    first: Seq<char>,
    second: Seq<char>,
    other_kind: u8,
    other_first: Seq<char>,
    other_second: Seq<char>,
)
    requires
        encode_utf8(first).len() <= u64::MAX,
        encode_utf8(other_first).len() <= u64::MAX,
        signed_fields(kind, first, second) == signed_fields(other_kind, other_first, other_second),
    ensures
        kind == other_kind,
        first == other_first,
        second == other_second,
{
    reveal_with_fuel(byte_range, 9);
    let a = encode_utf8(first);
    let b = encode_utf8(second);
    let c = encode_utf8(other_first);
    let d = encode_utf8(other_second);
    let s = signed_fields(kind, first, second);
    let t = signed_fields(other_kind, other_first, other_second);
    lemma_le_bytes_len(a.len(), 8);
    lemma_le_bytes_len(c.len(), 8);
    lemma_le_round_trip(a.len(), 8);
    lemma_le_round_trip(c.len(), 8);
    assert(s[0] == kind && t[0] == other_kind);
    assert(s.subrange(1, 9) =~= le_bytes(a.len(), 8));
    assert(t.subrange(1, 9) =~= le_bytes(c.len(), 8));
    assert(a.len() == c.len());
    assert(s.subrange(9, 9 + a.len() as int) =~= a);
    assert(t.subrange(9, 9 + c.len() as int) =~= c);
    assert(s.skip(9 + a.len() as int) =~= b);
    assert(t.skip(9 + c.len() as int) =~= d);
    encode_utf8_decode_utf8(first);
    encode_utf8_decode_utf8(second);
    encode_utf8_decode_utf8(other_first);
    encode_utf8_decode_utf8(other_second);
}

/// A message's own tag holds, a message without a tag is let through, every other tag
/// is refused, and so is every tag where no key was presented.
pub proof fn lemma_own_tag_holds(
    key: Seq<char>,
    tag: Seq<char>,
    kind: u8,
    first: Seq<char>,
    second: Seq<char>,
)
    ensures
        tag_holds(Some(key), Some(tag), kind, first, second) <==> tag == hex_text(
            hmac_sha256(encode_utf8(key), signed_fields(kind, first, second)),
        ),
        tag_holds(Some(key), None, kind, first, second),
        tag_holds(None, None, kind, first, second),
        !tag_holds(None, Some(tag), kind, first, second),
{
}

} // verus!
