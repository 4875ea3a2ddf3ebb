//! The digest by which a block is named: SHA-1, written as lower-case hex.
use vstd::prelude::*;
use sha1::Digest;

verus! {

/// The SHA-1 digest of `data`, as computed by the `sha1` crate.
pub uninterp spec fn sha1_of(data: Seq<u8>) -> Seq<u8>;

/// Number of bytes in a SHA-1 digest.
pub const SHA1_LEN: usize = 20;

/// Calls `sha1::Sha1::digest` (the one-shot form of `Digest`) and copies the
/// fixed-size output into a vector. The contract names the result
/// [`sha1_of`] and states its length, which the output type of the hash
/// fixes at 20 bytes.
#[verifier::external_body]
fn sha1_digest(data: &[u8]) -> (out: Vec<u8>)
    ensures
        out@ == sha1_of(data@),
        out@.len() == SHA1_LEN,
{
    sha1::Sha1::digest(data).to_vec()
}

/// The sixteen hex digits, lower case, each at the index of its value.
pub open spec fn hex_digits() -> Seq<char> {
    seq!['0', '1', '2', '3', '4', '5', '6', '7', '8', '9', 'a', 'b', 'c', 'd', 'e', 'f']
}

/// Lower-case hex of `bytes`: two digits for each byte, the high half first.
pub open spec fn hex_lower(bytes: Seq<u8>) -> Seq<char> {
    Seq::new(
        2 * bytes.len(),
        |i: int|
            if i % 2 == 0 {
                hex_digits()[bytes[i / 2] as int / 16]
            } else {
                hex_digits()[bytes[i / 2] as int % 16]
            },
    )
}

/// The name under which a block with content `data` is stored and looked up.
pub open spec fn sha1_hex_of(data: Seq<u8>) -> Seq<char> {
    hex_lower(sha1_of(data))
}

/// The hex digit of a value below sixteen.
fn hex_digit(value: u8) -> (digit: char)
    requires
        value < 16,
    ensures
        digit == hex_digits()[value as int],
{
    match value {
        0 => '0',
        1 => '1',
        2 => '2',
        3 => '3',
        4 => '4',
        5 => '5',
        6 => '6',
        7 => '7',
        8 => '8',
        9 => '9',
        10 => 'a',
        11 => 'b',
        12 => 'c',
        13 => 'd',
        14 => 'e',
        _ => 'f',
    }
}

/// Writes `bytes` as lower-case hex.
pub fn to_hex(bytes: &[u8]) -> (out: String)
    ensures
        out@ == hex_lower(bytes@),
{
    let mut out = String::new();
    let mut i: usize = 0;
    while i < bytes.len()
        invariant
            i <= bytes.len(),
            out@ == hex_lower(bytes@).take(2 * i),
        decreases bytes.len() - i,
    {
        let byte: u8 = bytes[i];
        out.push(hex_digit(byte / 16));
        out.push(hex_digit(byte % 16));
        i += 1;
    }
    out
}

/// The hex-encoded SHA-1 digest of `data`.
pub fn sha1_hex(data: &[u8]) -> (out: String)
    ensures
        out@ == sha1_hex_of(data@),
        out@.len() == 2 * SHA1_LEN,
{
    let raw = sha1_digest(data);
    to_hex(raw.as_slice())
}

} // verus!
