use vstd::prelude::*;
use crate::errors::{fails_with, AppError, ErrorKind};
use crate::crypto::text_bytes;
use crate::validate::{char_len_within, is_url, len_within, url_is_valid};
use vstd::utf8::{decode_utf8, valid_utf8};

verus! {

/// The address that the proxy fetches.
#[derive(Debug)]
pub struct ProxyData {
    pub url: String,
}

/// A URL of 1 to 255 characters that parses.
pub open spec fn valid_target(url: Seq<char>) -> bool {
    len_within(url, 1, 255) && url_is_valid(url)
}

impl ProxyData {
    pub open spec fn valid(&self) -> bool {
        valid_target(self.url@)
    }

    pub fn validate(&self) -> (r: Result<(), AppError>)
        ensures
            r is Ok <==> self.valid(),
            r is Err ==> fails_with(r, ErrorKind::ValidationFailed),
    {
        if !char_len_within(self.url.as_str(), 1, 255) {
            return Err(AppError::new(ErrorKind::ValidationFailed, 422, "app URL must be 1 to 255 characters"));
        }
        if !is_url(self.url.as_str()) {
            return Err(AppError::new(ErrorKind::ValidationFailed, 422, "app URL is not a valid URL"));
        }
        Ok(())
    }
}

pub open spec fn hex_value(b: u8) -> Option<u8> {
    if 0x30 <= b <= 0x39 {
        Some((b - 0x30) as u8)
    } else if 0x41 <= b <= 0x46 {
        Some((b - 0x41 + 10) as u8)
    } else if 0x61 <= b <= 0x66 {
        Some((b - 0x61 + 10) as u8)
    } else {
        None
    }
}

/// Percent-decoding of bytes: `%` and two hex digits give one byte; a `%`
/// not followed by two hex digits stays as it is, and `+` is kept.
pub open spec fn percent_decode_bytes(b: Seq<u8>) -> Seq<u8>
    decreases b.len(),
{
    if b.len() == 0 {
        b
    } else if b[0] != 0x25 {
        seq![b[0]] + percent_decode_bytes(b.drop_first())
    } else if b.len() < 3 {
        b
    } else if hex_value(b[1]) is Some && hex_value(b[2]) is Some {
        seq![(hex_value(b[1])->Some_0 * 16 + hex_value(b[2])->Some_0) as u8] + percent_decode_bytes(
            b.subrange(3, b.len() as int),
        )
    } else if hex_value(b[1]) is Some {
        seq![b[0], b[1]] + percent_decode_bytes(b.subrange(2, b.len() as int))
    } else {
        seq![b[0]] + percent_decode_bytes(b.drop_first())
    }
}

/// The text that percent-decoding yields, or `None` when the decoded bytes
/// are not UTF-8.
pub open spec fn percent_decoded(s: Seq<char>) -> Option<Seq<char>> {
    let bytes = percent_decode_bytes(text_bytes(s));
    if valid_utf8(bytes) {
        Some(decode_utf8(bytes))
    } else {
        None
    }
}

/// Relies on urlencoding::decode, which decodes `%XX` escapes byte by byte,
/// keeps any other `%` as it is, and fails when the result is not UTF-8; a
/// text without `%` comes back as it is.
#[verifier::external_body]
fn url_decode(s: &str) -> (r: Option<String>)
    ensures
        r matches Some(t) ==> percent_decoded(s@) == Some(t@),
        r is None ==> percent_decoded(s@) is None,
        !s@.contains('%') ==> (r is Some && r->Some_0@ == s@),
{
    urlencoding::decode(s).ok().map(|t| t.into_owned())
}

/// Reads the proxy target from its percent-encoded query value and checks it.
pub fn proxy_target(raw_url: &str) -> (r: Result<ProxyData, AppError>)
    ensures
        r is Ok <==> (percent_decoded(raw_url@) is Some && valid_target(percent_decoded(raw_url@)->Some_0)),
        r matches Ok(d) ==> percent_decoded(raw_url@) == Some(d.url@),
        r is Err ==> fails_with(r, ErrorKind::ValidationFailed),
{
    let url = match url_decode(raw_url) {
        Some(t) => t,
        None => return Err(AppError::new(ErrorKind::ValidationFailed, 422, "app URL is not valid UTF-8")),
    };
    let data = ProxyData { url };
    data.validate()?;
    Ok(data)
}

} // verus!
