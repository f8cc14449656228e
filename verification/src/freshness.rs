//! How long a download link can be used.
//!
//! A link carries the time of its expiry as the query parameter `Expires`, in
//! seconds since the Unix epoch. A link that expires less than a minute from
//! now is renewed before it is used.

use vstd::prelude::*;
use crate::drive::model::pair_views;

verus! {

/// A link is renewed when it has less than this many seconds left.
pub const URL_MARGIN_SECS: u64 = 60;

/// The query of an absolute URL, as it stands in the URL's normal form:
/// `None` for text that is no absolute URL, `Some(None)` for a URL without a
/// query.
pub uninterp spec fn url_query(link: Seq<char>) -> Option<Option<Seq<char>>>;

/// The names and values that a query in the form `name=value&...` holds,
/// percent-decoded and in order.
pub uninterp spec fn form_pairs(query: Seq<char>) -> Seq<(Seq<char>, Seq<char>)>;

/// The query parameters of an absolute URL, decoded and in order; `None` for
/// text that is no absolute URL. A URL without a query has the parameters of
/// the empty query.
pub open spec fn url_query_pairs(link: Seq<char>) -> Option<Seq<(Seq<char>, Seq<char>)>> {
    match url_query(link) {
        None => None,
        Some(None) => Some(form_pairs(Seq::empty())),
        Some(Some(query)) => Some(form_pairs(query)),
    }
}

/// The views of what `parsed_query` gives.
pub open spec fn query_view(query: Option<Option<String>>) -> Option<Option<Seq<char>>> {
    match query {
        None => None,
        Some(None) => Some(None),
        Some(Some(text)) => Some(Some(text@)),
    }
}

/// The views of what `query_pairs` gives.
pub open spec fn parsed_view(parsed: Option<Vec<(String, String)>>) -> Option<
    Seq<(Seq<char>, Seq<char>)>,
> {
    match parsed {
        Some(pairs) => Some(pair_views(pairs@)),
        None => None,
    }
}

/// `url::Url::parse`: the query that the parsed URL holds, or `None` where
/// the text does not parse as an absolute URL.
#[verifier::external_body]
fn parsed_query(link: &str) -> (query: Option<Option<String>>)
    ensures
        query_view(query) == url_query(link@),
{
    match url::Url::parse(link) {
        Ok(parsed) => Some(parsed.query().map(|text| text.to_string())),
        Err(_) => None,
    }
}

/// `url::form_urlencoded::parse`: the decoded pairs of a query, in order.
#[verifier::external_body]
fn form_decode(query: &str) -> (pairs: Vec<(String, String)>)
    ensures
        pair_views(pairs@) == form_pairs(query@),
{
    url::form_urlencoded::parse(query.as_bytes()).map(
        |(name, value)| (name.into_owned(), value.into_owned()),
    ).collect()
}

/// The query parameters of a link, or `None` where the link is no absolute URL.
pub fn query_pairs(link: &str) -> (parsed: Option<Vec<(String, String)>>)
    ensures
        parsed_view(parsed) == url_query_pairs(link@),
{
    proof {
        reveal_strlit("");
    }
    match parsed_query(link) {
        None => None,
        Some(None) => {
            assert(""@ =~= Seq::<char>::empty());
            Some(form_decode(""))
        },
        Some(Some(query)) => Some(form_decode(query.as_str())),
    }
}

pub open spec fn is_digit(c: char) -> bool {
    '0' <= c <= '9'
}

/// The text is one decimal digit or more.
pub open spec fn is_digits(s: Seq<char>) -> bool {
    s.len() > 0 && forall|i: int| 0 <= i < s.len() ==> is_digit(#[trigger] s[i])
}

/// The number that decimal digits spell.
pub open spec fn decimal_value(s: Seq<char>) -> nat
    decreases s.len(),
{
    if s.len() == 0 {
        0
    } else {
        (decimal_value(s.drop_last()) * 10 + (s.last() as u32 - '0' as u32)) as nat
    }
}

/// The number that a text spells: decimal digits, a `+` before them or not,
/// and nothing else; `None` where it spells none that fits.
pub open spec fn parsed_u64(s: Seq<char>) -> Option<u64> {
    let digits = if s.len() > 0 && s[0] == '+' {
        s.skip(1)
    } else {
        s
    };
    if is_digits(digits) && decimal_value(digits) <= u64::MAX {
        Some(decimal_value(digits) as u64)
    } else {
        None
    }
}

/// The expiry that the parameters carry: the value of the first `Expires`
/// that spells a number.
pub open spec fn expiry_of(pairs: Seq<(Seq<char>, Seq<char>)>) -> Option<u64>
    decreases pairs.len(),
{
    if pairs.len() == 0 {
        None
    } else if pairs[0].0 == "Expires"@ && parsed_u64(pairs[0].1) is Some {
        parsed_u64(pairs[0].1)
    } else {
        expiry_of(pairs.drop_first())
    }
}

/// Whether a link has to be renewed at time `now`, given how it parsed. Text
/// that is no URL always has to; a URL without an expiry never; any other
/// when its expiry is less than a minute away, or past.
pub open spec fn expired(parsed: Option<Seq<(Seq<char>, Seq<char>)>>, now: u64) -> bool {
    match parsed {
        None => true,
        Some(pairs) => match expiry_of(pairs) {
            Some(expires) => expires < now + URL_MARGIN_SECS,
            None => false,
        },
    }
}

/// Digits that go on spell no smaller number.
pub proof fn lemma_decimal_value_grows(s: Seq<char>, k: int)
    requires
        is_digits(s),
        0 <= k <= s.len(),
    ensures
        decimal_value(s.take(k)) <= decimal_value(s),
    decreases s.len() - k,
{
    if k == s.len() {
        assert(s.take(k) =~= s);
    } else {
        let longer = s.take(k + 1);
        assert(longer.drop_last() =~= s.take(k));
        assert(is_digit(s[k]));
        assert(longer.last() == s[k]);
        lemma_decimal_value_grows(s, k + 1);
    }
}

/// The number that a text spells, as `str::parse::<u64>` reads it.
pub fn parse_u64(text: &str) -> (value: Option<u64>)
    ensures
        value == parsed_u64(text@),
{
    let n = text.unicode_len();
    let start: usize = if n > 0 && text.get_char(0) == '+' {
        1
    } else {
        0
    };
    let ghost digits = text@.skip(start as int);
    assert(text@.skip(0) =~= text@);
    if start == n {
        return None;
    }
    let mut acc: u64 = 0;
    let mut i: usize = start;
    assert(digits.take(0) =~= Seq::<char>::empty());
    while i < n
        invariant
            start <= i <= n,
            start < n,
            n == text@.len(),
            digits == text@.skip(start as int),
            digits == if text@.len() > 0 && text@[0] == '+' {
                text@.skip(1)
            } else {
                text@
            },
            forall|j: int| 0 <= j < i - start ==> is_digit(#[trigger] digits[j]),
            acc == decimal_value(digits.take(i - start)),
        decreases n - i,
    {
        let c = text.get_char(i);
        assert(c == digits[i - start]);
        if !(c >= '0' && c <= '9') {
            assert(!is_digit(digits[i - start]));
            return None;
        }
        let d: u64 = (c as u32 - '0' as u32) as u64;
        proof {
            let longer = digits.take(i - start + 1);
            assert(longer.drop_last() =~= digits.take(i - start));
            assert(longer.last() == c);
            if is_digits(digits) {
                lemma_decimal_value_grows(digits, i - start + 1);
            }
        }
        assert(decimal_value(digits.take(i - start + 1)) == acc * 10 + d);
        if acc > (u64::MAX - d) / 10 {
            return None;
        }
        acc = acc * 10 + d;
        i += 1;
    }
    assert(digits.take(n - start) =~= digits);
    assert(is_digits(digits));
    Some(acc)
}

/// The expiry that the parameters carry.
pub fn expiry_in(pairs: &Vec<(String, String)>) -> (expires: Option<u64>)
    ensures
        expires == expiry_of(pair_views(pairs@)),
{
    let key = String::from_str("Expires");
    let mut i: usize = 0;
    assert(pair_views(pairs@).skip(0) =~= pair_views(pairs@));
    while i < pairs.len()
        invariant
            i <= pairs.len(),
            key@ == "Expires"@,
            expiry_of(pair_views(pairs@)) == expiry_of(pair_views(pairs@).skip(i as int)),
        decreases pairs.len() - i,
    {
        proof {
            let rest = pair_views(pairs@).skip(i as int);
            assert(rest.drop_first() =~= pair_views(pairs@).skip(i + 1));
            assert(rest[0] == (pairs@[i as int].0@, pairs@[i as int].1@));
        }
        if pairs[i].0 == key {
            match parse_u64(pairs[i].1.as_str()) {
                Some(expires) => {
                    return Some(expires);
                },
                None => {},
            }
        }
        i += 1;
    }
    None
}

/// Whether a link has to be renewed at time `now` (seconds since the Unix
/// epoch), given the parameters it parsed to, or `None` where it did not parse.
pub fn expired_given(parsed: &Option<Vec<(String, String)>>, now: u64) -> (renew: bool)
    ensures
        renew == expired(parsed_view(*parsed), now),
{
    match parsed {
        None => true,
        Some(pairs) => match expiry_in(pairs) {
            Some(expires) => {
                if now > u64::MAX - URL_MARGIN_SECS {
                    true
                } else {
                    expires < now + URL_MARGIN_SECS
                }
            },
            None => false,
        },
    }
}

/// Whether the link has to be renewed at time `now`, in seconds since the
/// Unix epoch.
pub fn is_url_expired(link: &str, now: u64) -> (renew: bool)
    ensures
        renew == expired(url_query_pairs(link@), now),
{
    let parsed = query_pairs(link);
    expired_given(&parsed, now)
}

} // verus!
