use vstd::prelude::*;
use validator::ValidateUrl;

verus! {

/// A visible ASCII character: `!` through `~`.
pub open spec fn is_visible_ascii(c: char) -> bool {
    '!' <= c && c <= '~'
}

pub open spec fn is_ascii_alnum(c: char) -> bool {
    ('a' <= c && c <= 'z') || ('A' <= c && c <= 'Z') || ('0' <= c && c <= '9')
}

pub open spec fn all_visible(s: Seq<char>) -> bool {
    forall|i: int| 0 <= i < s.len() ==> is_visible_ascii(#[trigger] s[i])
}

/// A username: 5 to 30 visible ASCII characters, the first alphanumeric.
pub open spec fn valid_username(s: Seq<char>) -> bool {
    5 <= s.len() <= 30 && is_ascii_alnum(s[0]) && all_visible(s)
}

/// A password: 8 to 30 visible ASCII characters.
pub open spec fn valid_password(s: Seq<char>) -> bool {
    8 <= s.len() <= 30 && all_visible(s)
}

pub open spec fn len_within(s: Seq<char>, min: nat, max: nat) -> bool {
    min <= s.len() <= max
}

/// An optional text is either absent or has a length in range.
pub open spec fn opt_len_within(s: Option<String>, min: nat, max: nat) -> bool {
    match s {
        Some(t) => len_within(t@, min, max),
        None => true,
    }
}

/// Whether `s` parses as an absolute URL.
pub uninterp spec fn url_is_valid(s: Seq<char>) -> bool;

/// Relies on validator's `ValidateUrl::validate_url` for `str`, which
/// reports whether `url::Url::parse` accepts the text.
#[verifier::external_body]
pub(crate) fn is_url(s: &str) -> (r: bool)
    ensures
        r == url_is_valid(s@),
{
    s.validate_url()
}

/// Whether the number of characters of `s` lies in `min..=max`.
pub fn char_len_within(s: &str, min: usize, max: usize) -> (r: bool)
    ensures
        r == len_within(s@, min as nat, max as nat),
{
    let n = s.unicode_len();
    min <= n && n <= max
}

pub fn opt_char_len_within(s: &Option<String>, min: usize, max: usize) -> (r: bool)
    ensures
        r == opt_len_within(*s, min as nat, max as nat),
{
    match s {
        Some(t) => char_len_within(t.as_str(), min, max),
        None => true,
    }
}

fn visible_ascii(c: char) -> (r: bool)
    ensures
        r == is_visible_ascii(c),
{
    '!' <= c && c <= '~'
}

fn ascii_alnum(c: char) -> (r: bool)
    ensures
        r == is_ascii_alnum(c),
{
    ('a' <= c && c <= 'z') || ('A' <= c && c <= 'Z') || ('0' <= c && c <= '9')
}

/// Whether every character of `s` is visible ASCII; `s` holds `n` characters.
fn chars_visible(s: &str, n: usize) -> (r: bool)
    requires
        n == s@.len(),
    ensures
        r == all_visible(s@),
{
    let mut i: usize = 0;
    while i < n
        invariant
            n == s@.len(),
            i <= n,
            forall|k: int| 0 <= k < i ==> is_visible_ascii(#[trigger] s@[k]),
        decreases n - i,
    {
        if !visible_ascii(s.get_char(i)) {
            return false;
        }
        i = i + 1;
    }
    true
}

pub fn is_valid_username(s: &str) -> (r: bool)
    ensures
        r == valid_username(s@),
{
    let n = s.unicode_len();
    if n < 5 || n > 30 {
        return false;
    }
    ascii_alnum(s.get_char(0)) && chars_visible(s, n)
}

pub fn is_valid_password(s: &str) -> (r: bool)
    ensures
        r == valid_password(s@),
{
    let n = s.unicode_len();
    if n < 8 || n > 30 {
        return false;
    }
    chars_visible(s, n)
}

} // verus!

verus! {

/// A copy of an optional text.
pub fn copy_opt_text(s: &Option<String>) -> (r: Option<String>)
    ensures
        r == *s,
{
    match s {
        Some(t) => Some(t.clone()),
        None => None,
    }
}

} // verus!
