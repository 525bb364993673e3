//! Deep links (`crambo://auth?token=...`) and the device name reported with uploads.

use vstd::prelude::*;
use crate::text::{spec_trim, str_equal, trim_double_quotes, TrimSet};

verus! {

/// The name of what `url::Url::parse` followed by `Url::query_pairs` yields for a string: the
/// decoded query pairs in order, or `None` where the string is not a valid absolute URL.
pub uninterp spec fn spec_url_query_pairs(url: Seq<char>) -> Option<Seq<(Seq<char>, Seq<char>)>>;

/// Parses `url` with `url::Url::parse` and, when it parses, collects its
/// `application/x-www-form-urlencoded` query pairs (`Url::query_pairs`) as owned strings.
/// The contract claims only that the outcome is a function of the string's characters,
/// named `spec_url_query_pairs`.
#[verifier::external_body]
fn url_query_pairs(url: &str) -> (r: Option<Vec<(String, String)>>)
    ensures
        match (r, spec_url_query_pairs(url@)) {
            (Some(v), Some(s)) => v@.map_values(|p: (String, String)| (p.0@, p.1@)) == s,
            (None, None) => true,
            _ => false,
        },
{
    match url::Url::parse(url) {
        Ok(parsed) => Some(parsed.query_pairs().map(|(k, v)| (k.into_owned(), v.into_owned())).collect()),
        Err(_) => None,
    }
}

/// The value of the first pair whose key is "token".
pub open spec fn first_token(pairs: Seq<(Seq<char>, Seq<char>)>) -> Option<Seq<char>>
    decreases pairs.len(),
{
    if pairs.len() == 0 {
        None
    } else if pairs[0].0 == "token"@ {
        Some(pairs[0].1)
    } else {
        first_token(pairs.drop_first())
    }
}

/// The token that a deep link carries: the link is stripped of surrounding double quotes and
/// parsed as a URL; the value of its first "token" query pair.
pub open spec fn spec_link_token(url: Seq<char>) -> Option<Seq<char>> {
    match spec_url_query_pairs(spec_trim(url, TrimSet::DoubleQuote)) {
        Some(pairs) => first_token(pairs),
        None => None,
    }
}

/// The value of the first query pair whose key is "token".
pub fn first_token_value(pairs: &Vec<(String, String)>) -> (r: Option<String>)
    ensures
        ({
            let ps = pairs@.map_values(|p: (String, String)| (p.0@, p.1@));
            &&& r matches Some(t) ==> first_token(ps) == Some(t@)
            &&& r is None ==> first_token(ps) is None
        }),
{
    let ghost ps = pairs@.map_values(|p: (String, String)| (p.0@, p.1@));
    let mut i: usize = 0;
    assert(ps.skip(0) =~= ps);
    while i < pairs.len()
        invariant
            i <= pairs@.len(),
            ps == pairs@.map_values(|p: (String, String)| (p.0@, p.1@)),
            first_token(ps) == first_token(ps.skip(i as int)),
        decreases pairs@.len() - i,
    {
        let (key, value) = &pairs[i];
        assert(ps.skip(i as int)[0] == (key@, value@));
        assert(ps.skip(i as int).drop_first() =~= ps.skip(i + 1));
        if str_equal(key.as_str(), "token") {
            return Some(value.clone());
        }
        i = i + 1;
    }
    assert(ps.skip(i as int).len() == 0);
    None
}

/// The sign-in token that a deep link payload carries, if any.
pub fn extract_token_from_url(url: &str) -> (r: Option<String>)
    ensures
        r matches Some(t) ==> spec_link_token(url@) == Some(t@),
        r is None ==> spec_link_token(url@) is None,
{
    let trimmed = trim_double_quotes(url);
    match url_query_pairs(trimmed.as_str()) {
        None => None,
        Some(pairs) => first_token_value(&pairs),
    }
}

/// The device name reported with uploads: the host name, or "Unknown" where it cannot be read.
pub fn device_name(hostname: Option<String>) -> (r: String)
    ensures
        r@ == match hostname {
            Some(h) => h@,
            None => "Unknown"@,
        },
{
    match hostname {
        Some(h) => h,
        None => String::from_str("Unknown"),
    }
}

} // verus!
