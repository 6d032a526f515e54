//! The write offset that a segment write asks for in its query string.
use vstd::prelude::*;

use crate::protocol::UploadError;

verus! {

/// What `form_urlencoded::parse` yields for a query string: the decoded
/// name and value of each pair, in order.
pub uninterp spec fn form_pairs(q: Seq<char>) -> Seq<(Seq<char>, Seq<char>)>;

/// The text of decoded pairs.
pub open spec fn pairs_text(v: Seq<(String, String)>) -> Seq<(Seq<char>, Seq<char>)> {
    v.map_values(|p: (String, String)| (p.0@, p.1@))
}

/// The value of the last pair named `key`: a later pair replaces an earlier
/// one, as when the pairs are collected into a map.
pub open spec fn last_value(ps: Seq<(Seq<char>, Seq<char>)>, key: Seq<char>) -> Option<
    Seq<char>,
>
    decreases ps.len(),
{
    if ps.len() == 0 {
        None
    } else if ps.last().0 == key {
        Some(ps.last().1)
    } else {
        last_value(ps.drop_last(), key)
    }
}

/// The name of the query parameter that carries the write offset.
pub open spec fn position_key() -> Seq<char> {
    seq!['p', 'o', 's', 'i', 't', 'i', 'o', 'n']
}

pub open spec fn is_digit(c: char) -> bool {
    '0' <= c && c <= '9'
}

pub open spec fn all_digits(s: Seq<char>) -> bool {
    forall|i: int| 0 <= i < s.len() ==> is_digit(#[trigger] s[i])
}

/// The number that a string of decimal digits denotes.
pub open spec fn digits_value(s: Seq<char>) -> nat
    decreases s.len(),
{
    if s.len() == 0 {
        0
    } else {
        digits_value(s.drop_last()) * 10 + (s.last() as nat - 48) as nat
    }
}

/// An offset's digits: the text with one leading `+` taken off.
pub open spec fn offset_digits(s: Seq<char>) -> Seq<char> {
    if s.len() > 0 && s[0] == '+' {
        s.drop_first()
    } else {
        s
    }
}

/// The offset that `s` denotes: an optional `+` and one or more decimal
/// digits whose value fits in 64 bits; anything else is malformed.
pub open spec fn spec_parse_offset(s: Seq<char>) -> Result<u64, UploadError> {
    let d = offset_digits(s);
    if d.len() > 0 && all_digits(d) && digits_value(d) <= u64::MAX {
        Ok(digits_value(d) as u64)
    } else {
        Err(UploadError::MalformedOffset)
    }
}

/// Where a segment write starts, given the decoded query pairs: at the last
/// `position` value, or at the start of the store when there is none.
pub open spec fn spec_offset_of(ps: Seq<(Seq<char>, Seq<char>)>) -> Result<u64, UploadError> {
    match last_value(ps, position_key()) {
        None => Ok(0),
        Some(t) => spec_parse_offset(t),
    }
}

/// Relies on form_urlencoded::parse: the decoded pairs of the query string,
/// none of them for an empty query.
#[verifier::external_body]
fn decode_query(q: &str) -> (r: Vec<(String, String)>)
    ensures
        pairs_text(r@) == form_pairs(q@),
        q@.len() == 0 ==> r@.len() == 0,
{
    form_urlencoded::parse(q.as_bytes()).into_owned().collect()
}

proof fn lemma_digits_prefix_le(d: Seq<char>, k: int)
    requires
        all_digits(d),
        0 <= k <= d.len(),
    ensures
        digits_value(d.subrange(0, k)) <= digits_value(d),
    decreases d.len(),
{
    if k < d.len() {
        let p = d.drop_last();
        assert(all_digits(p));
        lemma_digits_prefix_le(p, k);
        assert(p.subrange(0, k) =~= d.subrange(0, k));
    } else {
        assert(d.subrange(0, k) =~= d);
    }
}

/// Reads a write offset: an optional `+` followed by decimal digits whose
/// value fits in 64 bits.
pub fn parse_offset(s: &str) -> (r: Result<u64, UploadError>)
    ensures
        r == spec_parse_offset(s@),
{
    let n = s.unicode_len();
    let start: usize = if n > 0 && s.get_char(0) == '+' {
        1
    } else {
        0
    };
    let ghost d = offset_digits(s@);
    assert(d =~= s@.subrange(start as int, n as int));
    if start == n {
        return Err(UploadError::MalformedOffset);
    }
    let mut value: u64 = 0;
    let mut i: usize = start;
    while i < n
        invariant
            n == s@.len(),
            start <= i <= n,
            d == offset_digits(s@),
            d =~= s@.subrange(start as int, n as int),
            all_digits(d.subrange(0, i - start)),
            value == digits_value(d.subrange(0, i - start)),
        decreases n - i,
    {
        let c = s.get_char(i);
        if !('0' <= c && c <= '9') {
            assert(d[i - start] == c);
            assert(!is_digit(d[i - start]));
            return Err(UploadError::MalformedOffset);
        }
        let ghost next = d.subrange(0, i + 1 - start);
        assert(next.drop_last() =~= d.subrange(0, i - start));
        assert(next.last() == c);
        let digit = (c as u32 - 48) as u64;
        assert(all_digits(next));
        assert(digits_value(next) == value * 10 + digit);
        let scaled = value.checked_mul(10);
        if scaled.is_none() {
            proof {
                if all_digits(d) {
                    lemma_digits_prefix_le(d, i + 1 - start);
                }
            }
            return Err(UploadError::MalformedOffset);
        }
        let sum = scaled.unwrap().checked_add(digit);
        if sum.is_none() {
            proof {
                if all_digits(d) {
                    lemma_digits_prefix_le(d, i + 1 - start);
                }
            }
            return Err(UploadError::MalformedOffset);
        }
        value = sum.unwrap();
        i = i + 1;
    }
    assert(d.subrange(0, n - start) =~= d);
    Ok(value)
}

/// Index of the last pair named `key`.
fn find_last(pairs: &Vec<(String, String)>, key: &String) -> (r: Option<usize>)
    ensures
        match r {
            None => last_value(pairs_text(pairs@), key@) is None,
            Some(i) => i < pairs@.len() && last_value(pairs_text(pairs@), key@) == Some(
                pairs@[i as int].1@,
            ),
        },
{
    let ghost all = pairs_text(pairs@);
    let mut i: usize = pairs.len();
    assert(all.subrange(0, i as int) =~= all);
    while i > 0
        invariant
            i <= pairs@.len(),
            all == pairs_text(pairs@),
            last_value(all, key@) == last_value(all.subrange(0, i as int), key@),
        decreases i,
    {
        let ghost pre = all.subrange(0, i as int);
        assert(pre.drop_last() =~= all.subrange(0, i - 1));
        assert(pre.last() == (pairs@[i - 1].0@, pairs@[i - 1].1@));
        if pairs[i - 1].0 == *key {
            return Some(i - 1);
        }
        i = i - 1;
    }
    None
}

/// Where a segment write starts, given the decoded pairs of its query
/// string.
pub fn offset_from_pairs(pairs: &Vec<(String, String)>) -> (r: Result<u64, UploadError>)
    ensures
        r == spec_offset_of(pairs_text(pairs@)),
{
    let key = String::from_str("position");
    proof {
        reveal_strlit("position");
        assert(key@ =~= position_key());
    }
    match find_last(pairs, &key) {
        None => Ok(0),
        Some(i) => parse_offset(pairs[i].1.as_str()),
    }
}

/// Where a segment write starts, given its raw query string.
pub fn write_offset(query: &str) -> (r: Result<u64, UploadError>)
    ensures
        r == spec_offset_of(form_pairs(query@)),
        query@.len() == 0 ==> r == Ok::<u64, UploadError>(0),
{
    let pairs = decode_query(query);
    offset_from_pairs(&pairs)
}

} // verus!
