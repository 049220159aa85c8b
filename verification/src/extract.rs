//! Identifier extraction: the token between the first `[` and the first
//! `]` of a candidate line.

use vstd::prelude::*;
use crate::text::{find_char, first_ix, has_char, is_first_ix, lemma_first_exists, lemma_first_unique};

verus! {

/// The token between the first `[` and the first `]`, both exclusive.
/// Absent when either bracket is missing, and also when the first `]`
/// comes before the first `[`: such a line carries no identifier.
pub open spec fn spec_extract(s: Seq<char>) -> Option<Seq<char>> {
    if has_char(s, '[') && has_char(s, ']') && first_ix(s, '[') < first_ix(s, ']') {
        Some(s.subrange(first_ix(s, '[') + 1, first_ix(s, ']')))
    } else {
        None
    }
}

/// What stands strictly between the first `[` at position `i` and the
/// first `]` at a later position `j` is exactly the extracted token.
pub proof fn lemma_extract_between(s: Seq<char>, i: int, j: int)
    requires
        is_first_ix(s, '[', i),
        is_first_ix(s, ']', j),
        i < j,
    ensures
        spec_extract(s) == Some(s.subrange(i + 1, j)),
{
    lemma_first_exists(s, '[');
    lemma_first_exists(s, ']');
    lemma_first_unique(s, '[', i, first_ix(s, '['));
    lemma_first_unique(s, ']', j, first_ix(s, ']'));
}

/// Extract the bracketed identifier token of a candidate line, if any.
pub fn get_asn_str(line: &str) -> (r: Option<String>)
    ensures
        match r {
            Some(tok) => spec_extract(line@) matches Some(t) && tok@ == t,
            None => spec_extract(line@) is None,
        },
{
    let start = find_char(line, '[');
    let end = find_char(line, ']');
    match (start, end) {
        (Some(s0), Some(e0)) => {
            proof {
                lemma_first_exists(line@, '[');
                lemma_first_exists(line@, ']');
                lemma_first_unique(line@, '[', s0 as int, first_ix(line@, '['));
                lemma_first_unique(line@, ']', e0 as int, first_ix(line@, ']'));
            }
            if s0 < e0 {
                Some(line.substring_char(s0 + 1, e0).to_owned())
            } else {
                None
            }
        },
        _ => None,
    }
}

} // verus!
