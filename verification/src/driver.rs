//! Stream driver: one fixed pipeline per line — normalize, classify,
//! extract, suppress, resolve — around a single-slot dedup state.

use vstd::prelude::*;
use vstd::string::StringExecFns;
use crate::classify::{classify, spec_classify, Classification};
use crate::extract::{get_asn_str, spec_extract};
use crate::resolve::{digits_val, parse_asn, parses_to_u32, strip_as, ResolutionError};
use crate::text::{normalize, upper_seq};

verus! {

/// What one line calls for, before any lookup outcome is known. Used
/// only in specifications.
pub enum Decision {
    /// Emit the fixed no-response marker.
    EmitNoResponse,
    /// Emit the fixed reserved-identifier marker.
    EmitReserved,
    /// No bracketed token: skip the line.
    SkipMissing,
    /// Same token as the one last resolved: skip the line.
    SkipSuppressed,
    /// A new token: attempt a resolution for it.
    Attempt(Seq<char>),
}

/// The decision for one line, given the dedup slot's current state: the line
/// is normalized, classified, and its token is held against the state.
pub open spec fn spec_decision(last: Option<Seq<char>>, line: Seq<char>) -> Decision {
    let norm = upper_seq(line);
    match spec_classify(norm) {
        Classification::NoResponse => Decision::EmitNoResponse,
        Classification::Reserved => Decision::EmitReserved,
        Classification::Candidate => match spec_extract(norm) {
            None => Decision::SkipMissing,
            Some(tok) => if last == Some(tok) {
                Decision::SkipSuppressed
            } else {
                Decision::Attempt(tok)
            },
        },
    }
}

/// The dedup slot after one line: it advances to the attempted token
/// exactly when the token's numeric portion parses — whether or not the
/// lookup itself then succeeds — and is otherwise unchanged.
pub open spec fn spec_next(last: Option<Seq<char>>, line: Seq<char>) -> Option<Seq<char>> {
    match spec_decision(last, line) {
        Decision::Attempt(tok) => if parses_to_u32(strip_as(tok)) {
            Some(tok)
        } else {
            last
        },
        _ => last,
    }
}

/// What processing one line produced.
pub enum LineOutput {
    /// The line is a no-response marker.
    NoResponse,
    /// The line carries a reserved identifier.
    Reserved,
    /// A candidate line without a bracketed token; nothing is emitted.
    MissingIdentifier,
    /// The token equals the last one resolved; nothing is emitted.
    Suppressed,
    /// The token resolved to this display name.
    Resolved(String),
    /// The token could not be resolved; nothing is emitted.
    Failed(ResolutionError),
}

/// The streaming annotator: the whole cross-line state is one optional
/// last-seen token.
pub struct Annotator {
    last_asn: Option<String>,
}

impl Annotator {
    /// The dedup slot: the last token for which a resolution was
    /// attempted with a well-formed identifier.
    pub closed spec fn last(self) -> Option<Seq<char>> {
        match self.last_asn {
            None => None,
            Some(s) => Some(s@),
        }
    }

    /// A fresh annotator: the very first token is always processed.
    pub fn new() -> (r: Annotator)
        ensures
            r.last() is None,
    {
        Annotator { last_asn: None }
    }

    /// Process one raw input line: normalize, classify, extract,
    /// suppress, and resolve. The new state never depends on the lookup's outcome,
    /// so a lookup failure is contained to this one line.
    pub fn process_line(&mut self, line: &str) -> (out: LineOutput)
        ensures
            final(self).last() == spec_next(old(self).last(), line@),
            match spec_decision(old(self).last(), line@) {
                Decision::EmitNoResponse => out is NoResponse,
                Decision::EmitReserved => out is Reserved,
                Decision::SkipMissing => out is MissingIdentifier,
                Decision::SkipSuppressed => out is Suppressed,
                Decision::Attempt(tok) => if parses_to_u32(strip_as(tok)) {
                    out is Resolved || (out matches LineOutput::Failed(
                        ResolutionError::LookupFailed { identifier, .. },
                    ) && identifier as int == digits_val(strip_as(tok)))
                } else {
                    out matches LineOutput::Failed(ResolutionError::InvalidIdentifier { digits })
                        && digits@ == strip_as(tok)
                },
            },
    {
        let norm = normalize(line);
        match classify(norm.as_str()) {
            Classification::NoResponse => LineOutput::NoResponse,
            Classification::Reserved => LineOutput::Reserved,
            Classification::Candidate => match get_asn_str(norm.as_str()) {
                None => LineOutput::MissingIdentifier,
                Some(tok) => {
                    let suppressed = match &self.last_asn {
                        Some(prev) => *prev == tok,
                        None => false,
                    };
                    if suppressed {
                        LineOutput::Suppressed
                    } else {
                        match parse_asn(tok.as_str()) {
                            Ok(name) => {
                                self.last_asn = Some(tok);
                                LineOutput::Resolved(name)
                            },
                            Err(ResolutionError::InvalidIdentifier { digits }) => LineOutput::Failed(
                                ResolutionError::InvalidIdentifier { digits },
                            ),
                            Err(ResolutionError::LookupFailed { identifier, detail }) => {
                                self.last_asn = Some(tok);
                                LineOutput::Failed(
                                    ResolutionError::LookupFailed { identifier, detail },
                                )
                            },
                        }
                    }
                },
            },
        }
    }
}

/// The line written to the output stream for one processing outcome:
/// exactly three shapes are ever emitted, and the suppressed, missing
/// and failed outcomes emit nothing.
pub fn render(out: &LineOutput) -> (r: Option<String>)
    ensures
        match out {
            LineOutput::NoResponse => r matches Some(s) && s@ == "-> *"@,
            LineOutput::Reserved => r matches Some(s) && s@ == "-> AS0 (Reserved)"@,
            LineOutput::Resolved(name) => r matches Some(s) && s@ == "-> "@ + name@,
            _ => r is None,
        },
{
    match out {
        LineOutput::NoResponse => Some("-> *".to_owned()),
        LineOutput::Reserved => Some("-> AS0 (Reserved)".to_owned()),
        LineOutput::Resolved(name) => {
            let mut s = "-> ".to_owned();
            s.append(name.as_str());
            Some(s)
        },
        _ => None,
    }
}

/// Consecutive duplicate suppression: once a line's token has led to a
/// resolution attempt with a well-formed identifier, an immediately
/// following candidate line with the identical token is suppressed —
/// at most one resolution is attempted for the pair, and the second
/// line produces no output.
pub proof fn lemma_dedup_suppresses(last: Option<Seq<char>>, l1: Seq<char>, l2: Seq<char>)
    requires
        spec_decision(last, l1) matches Decision::Attempt(tok) && parses_to_u32(strip_as(tok)),
        spec_classify(upper_seq(l2)) is Candidate,
        spec_extract(upper_seq(l2)) == spec_extract(upper_seq(l1)),
    ensures
        spec_decision(spec_next(last, l1), l2) is SkipSuppressed,
{
}

/// Suppression reaches only immediately consecutive duplicates: with
/// tokens A, B, A in a row (B different from A), all three lines are
/// resolution-eligible.
pub proof fn lemma_dedup_resets(
    last: Option<Seq<char>>,
    l1: Seq<char>,
    l2: Seq<char>,
    l3: Seq<char>,
    a: Seq<char>,
    b: Seq<char>,
)
    requires
        spec_classify(upper_seq(l1)) is Candidate,
        spec_extract(upper_seq(l1)) == Some(a),
        spec_classify(upper_seq(l2)) is Candidate,
        spec_extract(upper_seq(l2)) == Some(b),
        spec_classify(upper_seq(l3)) is Candidate,
        spec_extract(upper_seq(l3)) == Some(a),
        a != b,
        last != Some(a),
        parses_to_u32(strip_as(a)),
        parses_to_u32(strip_as(b)),
    ensures
        spec_decision(last, l1) == Decision::Attempt(a),
        spec_decision(spec_next(last, l1), l2) == Decision::Attempt(b),
        spec_decision(spec_next(spec_next(last, l1), l2), l3) == Decision::Attempt(a),
{
}

/// Resolver failure containment: after a resolution attempt for a
/// well-formed token, the dedup slot holds that token whatever the lookup
/// returned, so every following line is handled exactly as it would be
/// after a successful lookup.
pub proof fn lemma_failure_containment(
    last: Option<Seq<char>>,
    l1: Seq<char>,
    l2: Seq<char>,
    tok: Seq<char>,
)
    requires
        spec_decision(last, l1) == Decision::Attempt(tok),
        parses_to_u32(strip_as(tok)),
    ensures
        spec_next(last, l1) == Some(tok),
        spec_decision(spec_next(last, l1), l2) == spec_decision(Some(tok), l2),
{
}

} // verus!
