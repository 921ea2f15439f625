//! The worker connection's query string.
use vstd::prelude::*;

use crate::strings::{find_char_from, first_index_from, lemma_first_index_from, str_eq};

verus! {

/// The value range `(from, to)` of the first `capabilities=` pair in the
/// `&`-separated pairs of `query` that start at or after `start`.
pub open spec fn capabilities_range(query: Seq<char>, start: int) -> Option<(int, int)>
    decreases query.len() - start,
{
    if start < 0 || start > query.len() {
        None
    } else {
        let end = first_index_from(query, '&', start, query.len() as int);
        let eq = first_index_from(query, '=', start, end);
        if eq < end && query.subrange(start, eq) == "capabilities"@ {
            Some((eq + 1, end))
        } else if end >= query.len() || end < start {
            None
        } else {
            capabilities_range(query, end + 1)
        }
    }
}

/// The value of the `capabilities` parameter of a raw query string such
/// as `capabilities=chat,transcription`.
pub fn extract_capabilities_param(query: &str) -> (value: Option<&str>)
    ensures
        match capabilities_range(query@, 0) {
            Some((from, to)) => value matches Some(v) && v@ == query@.subrange(from, to),
            None => value is None,
        },
{
    let n = query.unicode_len();
    let mut start: usize = 0;
    while start <= n
        invariant
            n == query@.len(),
            start <= n + 1,
            capabilities_range(query@, 0) == capabilities_range(query@, start as int),
        decreases n + 1 - start,
    {
        proof {
            lemma_first_index_from(query@, '&', start as int, n as int);
        }
        let end = find_char_from(query, '&', start, n);
        proof {
            lemma_first_index_from(query@, '=', start as int, end as int);
        }
        let eq = find_char_from(query, '=', start, end);
        if eq < end {
            let key = query.substring_char(start, eq);
            if str_eq(key, "capabilities") {
                return Some(query.substring_char(eq + 1, end));
            }
        }
        if end >= n {
            return None;
        }
        start = end + 1;
    }
    None
}

} // verus!
