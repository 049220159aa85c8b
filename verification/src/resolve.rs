//! Resolver adapter: cleans the textual token, parses the numeric
//! identifier, and maps the external directory's answer (or failure)
//! into a display name or an error.

use vstd::prelude::*;

verus! {

/// `s` with every occurrence of the marker `AS` removed, scanning left
/// to right without overlap.
pub open spec fn strip_as(s: Seq<char>) -> Seq<char>
    decreases s.len(),
{
    if s.len() >= 2 && s[0] == 'A' && s[1] == 'S' {
        strip_as(s.subrange(2, s.len() as int))
    } else if s.len() == 0 {
        s
    } else {
        seq![s[0]] + strip_as(s.subrange(1, s.len() as int))
    }
}

/// An ASCII decimal digit.
pub open spec fn is_digit(c: char) -> bool {
    '0' <= c && c <= '9'
}

/// The numeric value of one ASCII decimal digit.
pub open spec fn digit_val(c: char) -> int {
    c as int - 48
}

/// Every character of `s` is an ASCII decimal digit.
pub open spec fn all_digits(s: Seq<char>) -> bool {
    forall|i: int| 0 <= i < s.len() ==> is_digit(s[i])
}

/// The value of a digit string read as a decimal number.
pub open spec fn digits_val(s: Seq<char>) -> int
    decreases s.len(),
{
    if s.len() == 0 {
        0
    } else {
        digits_val(s.drop_last()) * 10 + digit_val(s.last())
    }
}

/// `s` is a non-empty digit string whose value fits an unsigned 32-bit
/// number: exactly the tokens the adapter accepts.
pub open spec fn parses_to_u32(s: Seq<char>) -> bool {
    s.len() > 0 && all_digits(s) && digits_val(s) <= u32::MAX
}

proof fn lemma_digits_val_nonneg(s: Seq<char>)
    requires
        all_digits(s),
    ensures
        digits_val(s) >= 0,
    decreases s.len(),
{
    if s.len() > 0 {
        assert(all_digits(s.drop_last()));
        lemma_digits_val_nonneg(s.drop_last());
        assert(is_digit(s.last()));
    }
}

/// A decimal number is at least as large as the number read from any of
/// its prefixes.
proof fn lemma_digits_val_prefix(s: Seq<char>, i: int)
    requires
        0 <= i <= s.len(),
        all_digits(s),
    ensures
        digits_val(s.subrange(0, i)) <= digits_val(s),
    decreases s.len() - i,
{
    if i == s.len() {
        assert(s.subrange(0, i) =~= s);
    } else {
        lemma_digits_val_prefix(s, i + 1);
        let shorter = s.subrange(0, i);
        let longer = s.subrange(0, i + 1);
        assert(longer.drop_last() =~= shorter);
        assert(longer.last() == s[i]);
        assert(all_digits(shorter));
        lemma_digits_val_nonneg(shorter);
        assert(is_digit(s[i]));
        assert(digits_val(longer) == digits_val(shorter) * 10 + digit_val(s[i]));
        assert(digits_val(shorter) * 10 >= digits_val(shorter));
    }
}

/// Remove every `AS` marker from the token, as the adapter's cleaning
/// step does before parsing.
pub fn clean_token(tok: &str) -> (r: String)
    ensures
        r@ == strip_as(tok@),
{
    let n = tok.unicode_len();
    let mut out = String::new();
    let mut i: usize = 0;
    proof {
        assert(tok@.subrange(0, n as int) =~= tok@);
        assert(out@ + strip_as(tok@) =~= strip_as(tok@));
    }
    while i < n
        invariant
            n == tok@.len(),
            0 <= i <= n,
            strip_as(tok@) == out@ + strip_as(tok@.subrange(i as int, n as int)),
        decreases n - i,
    {
        let c = tok.get_char(i);
        let ghost rest = tok@.subrange(i as int, n as int);
        if c == 'A' && i + 1 < n && tok.get_char(i + 1) == 'S' {
            proof {
                assert(rest.len() >= 2 && rest[0] == 'A' && rest[1] == 'S');
                assert(rest.subrange(2, rest.len() as int) =~= tok@.subrange(
                    i + 2,
                    n as int,
                ));
            }
            i = i + 2;
        } else {
            proof {
                assert(rest.len() >= 1);
                if rest.len() >= 2 && rest[0] == 'A' && rest[1] == 'S' {
                    assert(rest[1] == tok@[i + 1]);
                    assert(false);
                }
                assert(strip_as(rest) == seq![rest[0]] + strip_as(rest.subrange(
                    1,
                    rest.len() as int,
                )));
                assert(rest.subrange(1, rest.len() as int) =~= tok@.subrange(i + 1, n as int));
                assert(rest[0] == tok@[i as int]);
            }
            crate::text::push_char(&mut out, c);
            proof {
                assert(out@ + strip_as(tok@.subrange(i + 1, n as int)) =~= strip_as(tok@));
            }
            i = i + 1;
        }
    }
    proof {
        assert(tok@.subrange(n as int, n as int) =~= Seq::<char>::empty());
        assert(out@ + Seq::<char>::empty() =~= out@);
    }
    out
}

/// Parse a non-empty ASCII digit string as an unsigned 32-bit number.
pub fn parse_u32(s: &str) -> (r: Option<u32>)
    ensures
        match r {
            Some(v) => parses_to_u32(s@) && v as int == digits_val(s@),
            None => !parses_to_u32(s@),
        },
{
    let n = s.unicode_len();
    if n == 0 {
        return None;
    }
    let mut acc: u64 = 0;
    let mut i: usize = 0;
    while i < n
        invariant
            n == s@.len(),
            0 <= i <= n,
            all_digits(s@.subrange(0, i as int)),
            acc as int == digits_val(s@.subrange(0, i as int)),
            acc <= u32::MAX,
        decreases n - i,
    {
        let c = s.get_char(i);
        if !('0' <= c && c <= '9') {
            assert(!is_digit(s@[i as int]));
            return None;
        }
        let d: u64 = ((c as u8) - 48) as u64;
        proof {
            let prefix = s@.subrange(0, i as int);
            let next = s@.subrange(0, i + 1);
            assert(next.drop_last() =~= prefix);
            assert(next.last() == s@[i as int]);
            assert(d as int == digit_val(s@[i as int]));
        }
        acc = acc * 10 + d;
        i = i + 1;
        if acc > 0xffff_ffff {
            proof {
                if all_digits(s@) {
                    lemma_digits_val_prefix(s@, i as int);
                }
            }
            return None;
        }
    }
    proof {
        assert(s@.subrange(0, n as int) =~= s@);
    }
    Some(acc as u32)
}

/// Why a token could not be turned into a display name.
#[derive(Debug)]
pub enum ResolutionError {
    /// The cleaned token is not a number that fits an unsigned 32-bit
    /// range; carries the text that failed to parse.
    InvalidIdentifier { digits: String },
    /// The external directory call failed; carries the identifier that
    /// was looked up and the cause.
    LookupFailed { identifier: u32, detail: String },
}

/// Relies on cymrust::cymru_asn: one synchronous DNS TXT query against
/// the Team Cymru directory for the given identifier. The answer depends
/// on the network, so nothing is promised of which outcome comes back;
/// of every outcome it holds that a successful answer carries at least
/// one record (the crate reports an empty record list as an error), and
/// each returned string is the name field of one record, in order.
#[verifier::external_body]
fn cymru_lookup(asn: u32) -> (r: Result<Vec<String>, String>)
    ensures
        r matches Ok(names) ==> names@.len() > 0,
{
    match cymrust::cymru_asn(asn) {
        Ok(records) => Ok(records.into_iter().map(|rec| rec.as_name).collect()),
        Err(e) => Err(format!("{}", e)),
    }
}

/// The display name carried by a directory answer: the name of the first
/// record, or the placeholder `?` when the answer holds no records.
pub fn display_name_of(names: &Vec<String>) -> (r: String)
    ensures
        names@.len() > 0 ==> r@ == names@[0]@,
        names@.len() == 0 ==> r@ == "?"@,
{
    if names.len() > 0 {
        names[0].clone()
    } else {
        "?".to_owned()
    }
}

/// Clean the token, parse the numeric identifier, and consult the
/// external directory. A token whose cleaned text does not parse is an
/// invalid identifier, always; a token that parses is looked up, and the
/// call either yields a name or fails with the identifier it tried.
pub fn parse_asn(asn_str: &str) -> (r: Result<String, ResolutionError>)
    ensures
        !parses_to_u32(strip_as(asn_str@)) ==> (r matches Err(
            ResolutionError::InvalidIdentifier { digits },
        ) && digits@ == strip_as(asn_str@)),
        parses_to_u32(strip_as(asn_str@)) ==> match r {
            Ok(_) => true,
            Err(e) => e matches ResolutionError::LookupFailed { identifier, .. }
                && identifier as int == digits_val(strip_as(asn_str@)),
        },
{
    let digits = clean_token(asn_str);
    match parse_u32(digits.as_str()) {
        None => Err(ResolutionError::InvalidIdentifier { digits }),
        Some(asn) => match cymru_lookup(asn) {
            Ok(names) => Ok(display_name_of(&names)),
            Err(detail) => Err(ResolutionError::LookupFailed { identifier: asn, detail }),
        },
    }
}

} // verus!

