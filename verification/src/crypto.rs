//! Calls into the hashing, encoding and URL crates, with what each promises.

use vstd::prelude::*;
use crate::numfmt::hex_lower;
use sha2::Digest;
use hmac::Mac;

verus! {

/// SHA-256 digest of `data`.
pub uninterp spec fn spec_sha256(data: Seq<u8>) -> Seq<u8>;

/// HMAC-SHA256 of `msg` under `key`.
pub uninterp spec fn spec_hmac_sha256(key: Seq<u8>, msg: Seq<u8>) -> Seq<u8>;

/// Computes `sha2::Sha256::digest(data)`.
///
/// Trusted: the digest is a function of the bytes alone, named
/// `spec_sha256`, and is 32 bytes long.
#[verifier::external_body]
pub(crate) fn sha256(data: &[u8]) -> (r: Vec<u8>)
    ensures
        r@ == spec_sha256(data@),
        r@.len() == 32,
{
    sha2::Sha256::digest(data).to_vec()
}

/// Computes HMAC-SHA256 with `hmac::Hmac::<sha2::Sha256>`.
///
/// Trusted: `new_from_slice` accepts keys of every length for HMAC, so no
/// error is possible; the tag is a function of key and message, named
/// `spec_hmac_sha256`, and is 32 bytes long.
#[verifier::external_body]
pub(crate) fn hmac_sha256(key: &[u8], msg: &[u8]) -> (r: Vec<u8>)
    ensures
        r@ == spec_hmac_sha256(key@, msg@),
        r@.len() == 32,
{
    let mut mac = <hmac::Hmac<sha2::Sha256> as hmac::Mac>::new_from_slice(key).expect("HMAC takes keys of any length");
    mac.update(msg);
    mac.finalize().into_bytes().to_vec()
}

/// Lowercase hexadecimal text of `data`, as `hex::encode` writes it.
///
/// Trusted: `hex::encode` writes two lowercase digits per byte, high nibble first.
#[verifier::external_body]
pub(crate) fn hex_encode(data: &[u8]) -> (r: String)
    ensures
        r@ == hex_lower(data@),
{
    hex::encode(data)
}

/// Whether `b` is left as is by URL encoding: ASCII letters and digits and `-`, `.`, `_`, `~`.
pub open spec fn url_unreserved(b: u8) -> bool {
    (0x30 <= b <= 0x39) || (0x41 <= b <= 0x5A) || (0x61 <= b <= 0x7A) || b == 0x2D || b == 0x2E
        || b == 0x5F || b == 0x7E
}

/// The uppercase hexadecimal digit for `d` in `0..=15`.
pub open spec fn hex_upper_char(d: int) -> char {
    if d < 10 { crate::numfmt::digit_char(d) } else if d == 10 { 'A' } else if d == 11 { 'B' }
    else if d == 12 { 'C' } else if d == 13 { 'D' } else if d == 14 { 'E' } else { 'F' }
}

/// Percent-encoding of bytes: unreserved bytes kept, every other byte `%XX`
/// with uppercase hexadecimal.
pub open spec fn url_encoded(b: Seq<u8>) -> Seq<char>
    decreases b.len(),
{
    if b.len() == 0 {
        Seq::empty()
    } else {
        let x = b.last();
        url_encoded(b.drop_last()) + if url_unreserved(x) {
            seq![x as char]
        } else {
            seq!['%', hex_upper_char((x / 16) as int), hex_upper_char((x % 16) as int)]
        }
    }
}

/// Computes `urlencoding::encode(s)`.
///
/// Trusted: the crate percent-encodes every byte of the UTF-8 encoding of
/// `s` except ASCII alphanumerics and `-`, `_`, `.`, `~`, with uppercase
/// hexadecimal digits.
#[verifier::external_body]
pub(crate) fn url_encode(s: &str) -> (r: String)
    ensures
        r@ == url_encoded(vstd::utf8::encode_utf8(s@)),
{
    urlencoding::encode(s).into_owned()
}

/// What URL parsing gives for `url`: the path and the host, or the text of
/// the parse error.
pub uninterp spec fn spec_url_path_host(url: Seq<char>) -> Result<(Seq<char>, Option<Seq<char>>), Seq<char>>;

/// Parses `url` with `reqwest::Url::parse` and returns its `path()` and
/// `host_str()`, or the error's text.
///
/// Trusted: the outcome is a function of the text alone, named
/// `spec_url_path_host`.
#[verifier::external_body]
pub(crate) fn url_path_host(url: &str) -> (r: Result<(String, Option<String>), String>)
    ensures
        match r {
            Ok((p, h)) => spec_url_path_host(url@) == Ok::<(Seq<char>, Option<Seq<char>>), Seq<char>>((p@, match h { Some(x) => Some(x@), None => None })),
            Err(e) => spec_url_path_host(url@) == Err::<(Seq<char>, Option<Seq<char>>), Seq<char>>(e@),
        },
{
    match reqwest::Url::parse(url) {
        Ok(u) => Ok((u.path().to_string(), u.host_str().map(|h| h.to_string()))),
        Err(e) => Err(e.to_string()),
    }
}

/// The current UTC time formatted as `%Y%m%dT%H%M%SZ`.
///
/// Trusted: depends on the clock, so only the shape is stated. The year
/// has at least four digits (a sign is added outside 0 to 9999), so there
/// are at least sixteen characters; the text ends with `T`, the six time
/// digits and `Z`. The first eight characters are the date only for years
/// 0 to 9999, so that is not stated.
#[verifier::external_body]
pub(crate) fn utc_now_amz_date() -> (r: String)
    ensures
        r@.len() >= 16,
        r@[r@.len() - 8] == 'T',
        r@[r@.len() - 1] == 'Z',
{
    chrono::Utc::now().format("%Y%m%dT%H%M%SZ").to_string()
}

/// Lowercase form of `s` as `str::to_lowercase` computes it.
pub uninterp spec fn spec_to_lowercase(s: Seq<char>) -> Seq<char>;

/// ASCII lowercase of a character.
pub open spec fn ascii_lower(c: char) -> char {
    if 'A' <= c <= 'Z' { ((c as u32) + 32) as char } else { c }
}

/// Computes `str::to_lowercase`.
///
/// Trusted: the result is a function of the text, named `spec_to_lowercase`;
/// for ASCII text it maps `A`..`Z` to `a`..`z` and keeps every other character.
#[verifier::external_body]
pub(crate) fn to_lowercase(s: &str) -> (r: String)
    ensures
        r@ == spec_to_lowercase(s@),
        (forall|i: int| 0 <= i < s@.len() ==> (s@[i] as u32) < 128) ==> r@ == s@.map_values(|c: char| ascii_lower(c)),
{
    s.to_lowercase()
}


/// The current local time as `chrono::Local::now().to_string()` renders it.
///
/// Trusted: depends on the clock; nothing is stated of the value.
#[verifier::external_body]
pub(crate) fn local_now_display() -> (r: String)
{
    chrono::Local::now().to_string()
}

/// The current local time formatted `%Y-%m-%d %H:%M:%S`.
///
/// Trusted: depends on the clock; nothing is stated of the value.
#[verifier::external_body]
pub(crate) fn local_now_formatted() -> (r: String)
{
    chrono::Local::now().format("%Y-%m-%d %H:%M:%S").to_string()
}

} // verus!
