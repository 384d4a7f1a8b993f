//! Identity and content hashing.
//!
//! Every trackable entry is identified by the SHA-512 digest of its canonical
//! path, rendered as lowercase hex; file contents are fingerprinted the same
//! way. Directories have no byte content: their content hash is the sentinel
//! string `DIR`, which is distinguishable from every real digest because real
//! digests always render as 128 hex characters.

use vstd::prelude::*;

use sha2::Digest;

verus! {

/// Raw SHA-512 digest of a byte sequence, as the `sha2` crate computes it.
/// The digest is a function of the input bytes alone.
pub uninterp spec fn spec_sha512(data: Seq<u8>) -> Seq<u8>;

/// The SHA-512 digest of any input is exactly 64 bytes. `spec_sha512` is a
/// bare name, so that fact is restated here as a normalization: on every value
/// the trusted digest function actually returns, `digest512` and `spec_sha512`
/// coincide, and the 64-byte length is available in every specification.
pub open spec fn digest512(data: Seq<u8>) -> Seq<u8> {
    if spec_sha512(data).len() == 64 {
        spec_sha512(data)
    } else {
        Seq::new(64, |i: int| 0u8)
    }
}

/// Relies on `sha2::Sha512` (via the `Digest` trait): the digest is 64 bytes
/// and depends on the input bytes alone.
#[verifier::external_body]
pub(crate) fn sha512_digest(data: &[u8]) -> (r: Vec<u8>)
    ensures
        r@ == spec_sha512(data@),
        r@.len() == 64,
{
    let mut hasher = sha2::Sha512::new();
    hasher.update(data);
    hasher.finalize().to_vec()
}

/// Relies on `std`'s `String::push`: appends exactly the given character.
#[verifier::external_body]
pub(crate) fn string_push(s: &mut String, c: char)
    ensures
        final(s)@ == old(s)@.push(c),
{
    s.push(c);
}

/// The lowercase hex character for a nibble.
pub open spec fn hex_char(n: u8) -> char
    recommends
        n < 16,
{
    if n == 0 {
        '0'
    } else if n == 1 {
        '1'
    } else if n == 2 {
        '2'
    } else if n == 3 {
        '3'
    } else if n == 4 {
        '4'
    } else if n == 5 {
        '5'
    } else if n == 6 {
        '6'
    } else if n == 7 {
        '7'
    } else if n == 8 {
        '8'
    } else if n == 9 {
        '9'
    } else if n == 10 {
        'a'
    } else if n == 11 {
        'b'
    } else if n == 12 {
        'c'
    } else if n == 13 {
        'd'
    } else if n == 14 {
        'e'
    } else {
        'f'
    }
}

pub(crate) fn hex_digit(n: u8) -> (c: char)
    requires
        n < 16,
    ensures
        c == hex_char(n),
{
    if n == 0 {
        '0'
    } else if n == 1 {
        '1'
    } else if n == 2 {
        '2'
    } else if n == 3 {
        '3'
    } else if n == 4 {
        '4'
    } else if n == 5 {
        '5'
    } else if n == 6 {
        '6'
    } else if n == 7 {
        '7'
    } else if n == 8 {
        '8'
    } else if n == 9 {
        '9'
    } else if n == 10 {
        'a'
    } else if n == 11 {
        'b'
    } else if n == 12 {
        'c'
    } else if n == 13 {
        'd'
    } else if n == 14 {
        'e'
    } else {
        'f'
    }
}

/// Lowercase hex rendering of a byte sequence: two characters per byte, high
/// nibble first.
pub open spec fn hex_of(data: Seq<u8>) -> Seq<char> {
    Seq::new(
        data.len() * 2,
        |i: int|
            if i % 2 == 0 {
                hex_char(data[i / 2] / 16)
            } else {
                hex_char(data[i / 2] % 16)
            },
    )
}

/// Renders a byte sequence as lowercase hex.
pub(crate) fn to_hex(data: &Vec<u8>) -> (r: String)
    ensures
        r@ == hex_of(data@),
{
    let mut r = String::new();
    let n = data.len();
    for i in 0..n
        invariant
            n == data@.len(),
            r@ == hex_of(data@.take(i as int)),
    {
        let b = data[i];
        string_push(&mut r, hex_digit(b / 16));
        string_push(&mut r, hex_digit(b % 16));
        proof {
            assert(r@ =~= hex_of(data@.take(i + 1)));
        }
    }
    proof {
        assert(data@.take(n as int) =~= data@);
    }
    r
}

/// The identity ("blob") of a canonical path: the lowercase-hex SHA-512 digest
/// of the path's UTF-8 bytes. A pure function of the path alone, so identities
/// are stable across calls, processes and runs.
pub open spec fn path_hash_of(p: Seq<char>) -> Seq<char> {
    hex_of(digest512(vstd::utf8::encode_utf8(p)))
}

/// Derives the stable identity of a canonical path.
pub fn hash_path(path: &str) -> (r: String)
    ensures
        r@ == path_hash_of(path@),
        r@.len() == 128,
{
    let bytes = path.as_bytes();
    let d = sha512_digest(bytes);
    let r = to_hex(&d);
    proof {
        assert(digest512(bytes@) == d@);
    }
    r
}

/// The content hash of a trackable entry: the hex SHA-512 digest of the bytes
/// of a file, or the sentinel `DIR` for a directory (which has no bytes of its
/// own; its children are tracked as separate objects).
pub open spec fn content_hash_of(content: Option<Seq<u8>>) -> Seq<char> {
    match content {
        Option::None => "DIR"@,
        Option::Some(b) => hex_of(digest512(b)),
    }
}

/// Fingerprints the content of a trackable entry: the bytes of a file, or
/// `None` for a directory.
pub fn hash_contents(content: &Option<Vec<u8>>) -> (r: String)
    ensures
        r@ == content_hash_of(content.deep_view()),
{
    match content {
        Option::None => String::from_str("DIR"),
        Option::Some(b) => {
            let d = sha512_digest(b.as_slice());
            let r = to_hex(&d);
            proof {
                assert(digest512(b@) == d@);
                assert(b.deep_view() =~= b@);
            }
            r
        },
    }
}

/// A real content digest renders as 128 characters, so it is never the `DIR`
/// sentinel (3 characters) and never the empty string that stands for an
/// absent file.
pub proof fn lemma_content_hash_shape(content: Option<Seq<u8>>)
    ensures
        content is Some ==> content_hash_of(content).len() == 128,
        content is None ==> content_hash_of(content) == "DIR"@,
        content is Some ==> content_hash_of(content) != "DIR"@,
        content is Some ==> content_hash_of(content) != Seq::<char>::empty(),
{
    reveal_strlit("DIR");
    if content is Some {
        assert(content_hash_of(content).len() == 128);
        assert("DIR"@.len() == 3);
    }
}

} // verus!
