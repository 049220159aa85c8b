//! Line classification: "no response" markers, "reserved identifier"
//! markers, and candidate lines, checked in that fixed order.

use vstd::prelude::*;
use crate::text::{contains_seq, contains_sub, has_char};

verus! {

/// The three mutually exclusive outcomes of classifying one line.
#[derive(PartialEq, Eq, Structural, Clone, Copy, Debug)]
pub enum Classification {
    NoResponse,
    Reserved,
    Candidate,
}

/// A line is a "no response" marker exactly when it contains an asterisk.
pub open spec fn spec_no_response(s: Seq<char>) -> bool {
    has_char(s, '*')
}

/// A line carries a reserved-identifier marker when it contains the
/// literal `[AS0]` or `[AS?]`.
pub open spec fn spec_reserved_marker(s: Seq<char>) -> bool {
    contains_seq(s, "[AS0]"@) || contains_seq(s, "[AS?]"@)
}

/// Classification of one line. The order of the checks is a visible
/// behavioral contract: an asterisk wins over a reserved marker.
pub open spec fn spec_classify(s: Seq<char>) -> Classification {
    if spec_no_response(s) {
        Classification::NoResponse
    } else if spec_reserved_marker(s) {
        Classification::Reserved
    } else {
        Classification::Candidate
    }
}

/// Any line containing an asterisk is classified as no-response, whatever
/// else it contains — reserved markers included.
pub proof fn lemma_no_response_precedence(s: Seq<char>)
    requires
        has_char(s, '*'),
    ensures
        spec_classify(s) == Classification::NoResponse,
{
}

/// Any line containing `[AS0]` or `[AS?]` and no asterisk is classified
/// as reserved.
pub proof fn lemma_reserved_classification(s: Seq<char>)
    requires
        !has_char(s, '*'),
        contains_seq(s, "[AS0]"@) || contains_seq(s, "[AS?]"@),
    ensures
        spec_classify(s) == Classification::Reserved,
{
}

/// The fixed marker emitted for a no-response hop, when the line contains
/// an asterisk.
pub fn check_no_response(line: &str) -> (r: Option<&'static str>)
    ensures
        match r {
            Some(msg) => spec_no_response(line@) && msg@ == "-> *"@,
            None => !spec_no_response(line@),
        },
{
    if contains_sub(line, "*") {
        proof {
            reveal_strlit("*");
            let i = choose|i: int| crate::text::occurs_at(line@, "*"@, i);
            assert(line@.subrange(i, i + 1) == "*"@);
            assert(line@[i] == line@.subrange(i, i + 1)[0]);
            assert(line@[i] == '*');
        }
        Some("-> *")
    } else {
        proof {
            reveal_strlit("*");
            if has_char(line@, '*') {
                let i = choose|i: int| 0 <= i < line@.len() && line@[i] == '*';
                assert(line@.subrange(i, i + 1) =~= "*"@);
                assert(crate::text::occurs_at(line@, "*"@, i));
            }
        }
        None
    }
}

/// The fixed marker emitted for a reserved or unassigned identifier, when
/// the line contains `[AS0]` or `[AS?]`.
pub fn check_reserved(line: &str) -> (r: Option<&'static str>)
    ensures
        match r {
            Some(msg) => spec_reserved_marker(line@) && msg@ == "-> AS0 (Reserved)"@,
            None => !spec_reserved_marker(line@),
        },
{
    if contains_sub(line, "[AS0]") || contains_sub(line, "[AS?]") {
        Some("-> AS0 (Reserved)")
    } else {
        None
    }
}

/// Classify one line, checking the no-response marker first.
pub fn classify(line: &str) -> (r: Classification)
    ensures
        r == spec_classify(line@),
{
    if check_no_response(line).is_some() {
        Classification::NoResponse
    } else if check_reserved(line).is_some() {
        Classification::Reserved
    } else {
        Classification::Candidate
    }
}

} // verus!
