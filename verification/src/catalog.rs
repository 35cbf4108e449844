//! Catalog requests and artist resolution.
//!
//! The front end performs the two GET requests; this module builds
//! their URLs exactly and decides, from the validated response data,
//! which artist id the run is about.

use vstd::prelude::*;
use crate::chars::chars_to_string;
use vstd::utf8::encode_utf8;

verus! {

/// The one domain error: the search step yielded no usable artist id.
#[derive(Debug, PartialEq, Eq)]
pub enum CatalogError {
    NoArtistFound,
}

impl CatalogError {
    /// The error's message, as the program prints it.
    pub fn message(&self) -> (s: String)
        ensures
            s@ == "NoArtistFound"@,
    {
        String::from_str("NoArtistFound")
    }
}

/// Resolve the artist id from the search response.  `ids` holds, for
/// each result record in order, its artist id when the record carries
/// one representable as an unsigned integer.  The id of the first
/// result is returned; the resolution fails with `NoArtistFound` iff
/// the results are empty or their first record has no usable id.
pub fn resolve_artist_id(ids: &Vec<Option<u64>>) -> (r: Result<u64, CatalogError>)
    ensures
        r matches Ok(id) ==> ids@.len() > 0 && ids@[0] == Some(id),
        r is Err <==> ids@.len() == 0 || ids@[0] is None,
{
    if ids.len() == 0 {
        return Err(CatalogError::NoArtistFound);
    }
    match ids[0] {
        Some(id) => Ok(id),
        None => Err(CatalogError::NoArtistFound),
    }
}

/// The decimal digit character for `d`.
pub open spec fn digit_char(d: int) -> char {
    if d == 0 {
        '0'
    } else if d == 1 {
        '1'
    } else if d == 2 {
        '2'
    } else if d == 3 {
        '3'
    } else if d == 4 {
        '4'
    } else if d == 5 {
        '5'
    } else if d == 6 {
        '6'
    } else if d == 7 {
        '7'
    } else if d == 8 {
        '8'
    } else {
        '9'
    }
}

/// The decimal representation of `n`, most significant digit first,
/// with no leading zero except for `n == 0` itself.
pub open spec fn dec_rep(n: int) -> Seq<char>
    decreases n,
{
    if n < 10 {
        seq![digit_char(n)]
    } else {
        dec_rep(n / 10).push(digit_char(n % 10))
    }
}

fn digit_of(d: u64) -> (c: char)
    requires
        d < 10,
    ensures
        c == digit_char(d as int),
{
    if d == 0 {
        '0'
    } else if d == 1 {
        '1'
    } else if d == 2 {
        '2'
    } else if d == 3 {
        '3'
    } else if d == 4 {
        '4'
    } else if d == 5 {
        '5'
    } else if d == 6 {
        '6'
    } else if d == 7 {
        '7'
    } else if d == 8 {
        '8'
    } else {
        '9'
    }
}

fn decimal_chars(n: u64) -> (v: Vec<char>)
    ensures
        v@ == dec_rep(n as int),
    decreases n,
{
    if n < 10 {
        let mut v: Vec<char> = Vec::new();
        v.push(digit_of(n));
        proof {
            assert(v@ =~= seq![digit_char(n as int)]);
        }
        v
    } else {
        let mut v = decimal_chars(n / 10);
        v.push(digit_of(n % 10));
        v
    }
}

/// The decimal digits of `n`, as a string.
pub fn decimal_string(n: u64) -> (s: String)
    ensures
        s@ == dec_rep(n as int),
{
    chars_to_string(decimal_chars(n))
}

/// A byte that percent-encoding leaves as it is: the ASCII
/// alphanumerics (48 to 57, 65 to 90, 97 to 122) and `-`, `.`, `_`,
/// `~` (45, 46, 95, 126).
pub open spec fn is_unreserved(b: u8) -> bool {
    (48 <= b && b <= 57) || (65 <= b && b <= 90) || (97 <= b && b <= 122) || b == 45 || b == 46
        || b == 95 || b == 126
}

/// The uppercase hexadecimal digit character for `d`.
pub open spec fn hex_char(d: int) -> char {
    if d < 10 {
        digit_char(d)
    } else if d == 10 {
        'A'
    } else if d == 11 {
        'B'
    } else if d == 12 {
        'C'
    } else if d == 13 {
        'D'
    } else if d == 14 {
        'E'
    } else {
        'F'
    }
}

/// The percent-encoding of a byte sequence: unreserved bytes stand as
/// themselves, every other byte as `%` and two uppercase hex digits.
pub open spec fn percent_encoded_bytes(bs: Seq<u8>) -> Seq<char>
    decreases bs.len(),
{
    if bs.len() == 0 {
        Seq::empty()
    } else {
        let rest = percent_encoded_bytes(bs.drop_first());
        if is_unreserved(bs[0]) {
            seq![bs[0] as char] + rest
        } else {
            seq!['%', hex_char(bs[0] as int / 16), hex_char(bs[0] as int % 16)] + rest
        }
    }
}

/// The percent-encoded form of a string: its UTF-8 bytes, encoded.
pub open spec fn percent_encoded(s: Seq<char>) -> Seq<char> {
    percent_encoded_bytes(encode_utf8(s))
}

/// Relies on `urlencoding::encode`: percent-encodes every UTF-8 byte of
/// the input except the ASCII alphanumerics and `-`, `.`, `_`, `~`,
/// writing uppercase hexadecimal digits.
#[verifier::external_body]
fn percent_encode(s: &str) -> (r: String)
    ensures
        r@ == percent_encoded(s@),
{
    urlencoding::encode(s).into_owned()
}

/// The search request URL for `artist`: the fixed search endpoint with
/// the percent-encoded name, restricted to artist records and limited
/// to one result.
pub open spec fn search_url_spec(artist: Seq<char>) -> Seq<char> {
    "https://itunes.apple.com/search?term="@ + percent_encoded(artist)
        + "&entity=musicArtist&limit=1"@
}

/// Build the search request URL for an artist name.
pub fn build_search_url(artist: &str) -> (r: String)
    ensures
        r@ == search_url_spec(artist@),
{
    let mut s = String::from_str("https://itunes.apple.com/search?term=");
    let enc = percent_encode(artist);
    s.append(enc.as_str());
    s.append("&entity=musicArtist&limit=1");
    s
}

/// The lookup request URL for artist `id`, restricted to albums.
pub open spec fn lookup_url_spec(id: int) -> Seq<char> {
    "https://itunes.apple.com/lookup?id="@ + dec_rep(id) + "&entity=album"@
}

/// Build the album lookup URL for an artist id.
pub fn build_lookup_url(id: u64) -> (r: String)
    ensures
        r@ == lookup_url_spec(id as int),
{
    let mut s = String::from_str("https://itunes.apple.com/lookup?id=");
    let d = decimal_string(id);
    s.append(d.as_str());
    s.append("&entity=album");
    s
}

} // verus!
