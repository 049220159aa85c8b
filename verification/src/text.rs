//! Character-level helpers shared by the whole pipeline: upper-casing,
//! substring search and first-occurrence search, stated over `Seq<char>`.

use vstd::prelude::*;

verus! {

/// Upper-case one character, ASCII letters only: every other character is
/// left as it is.
pub open spec fn upper_char(c: char) -> char {
    if 'a' <= c && c <= 'z' {
        ((c as u8) - 32) as char
    } else {
        c
    }
}

/// Upper-case a whole line, character by character.
pub open spec fn upper_seq(s: Seq<char>) -> Seq<char> {
    Seq::new(s.len(), |i: int| upper_char(s[i]))
}

/// Normalization is idempotent: a second pass changes nothing, because
/// upper-casing never produces a lower-case ASCII letter.
pub proof fn lemma_normalize_idempotent(s: Seq<char>)
    ensures
        upper_seq(upper_seq(s)) == upper_seq(s),
{
    assert forall|i: int| 0 <= i < s.len() implies upper_seq(upper_seq(s))[i] == upper_seq(s)[i] by {
        assert(upper_char(upper_char(s[i])) == upper_char(s[i]));
    }
    assert(upper_seq(upper_seq(s)) =~= upper_seq(s));
}

/// The needle `n` occurs in `h` starting at position `i`.
pub open spec fn occurs_at(h: Seq<char>, n: Seq<char>, i: int) -> bool {
    0 <= i && i + n.len() <= h.len() && h.subrange(i, i + n.len() as int) == n
}

/// The needle `n` occurs somewhere in `h`.
pub open spec fn contains_seq(h: Seq<char>, n: Seq<char>) -> bool {
    exists|i: int| occurs_at(h, n, i)
}

/// The character `c` occurs somewhere in `s`.
pub open spec fn has_char(s: Seq<char>, c: char) -> bool {
    exists|i: int| 0 <= i < s.len() && s[i] == c
}

/// `i` is the position of the first occurrence of `c` in `s`.
pub open spec fn is_first_ix(s: Seq<char>, c: char, i: int) -> bool {
    0 <= i < s.len() && s[i] == c && (forall|k: int| 0 <= k < i ==> s[k] != c)
}

/// The position of the first occurrence of `c` in `s`; meaningful only
/// when `has_char(s, c)` holds.
pub open spec fn first_ix(s: Seq<char>, c: char) -> int {
    choose|i: int| is_first_ix(s, c, i)
}

/// Wherever `c` occurs at all, a first occurrence exists.
pub proof fn lemma_first_exists(s: Seq<char>, c: char)
    requires
        has_char(s, c),
    ensures
        is_first_ix(s, c, first_ix(s, c)),
{
    let w = choose|i: int| 0 <= i < s.len() && s[i] == c;
    lemma_first_below(s, c, w);
    let i = choose|i: int| is_first_ix(s, c, i);
    assert(is_first_ix(s, c, i));
}

proof fn lemma_first_below(s: Seq<char>, c: char, w: int)
    requires
        0 <= w < s.len(),
        s[w] == c,
    ensures
        exists|i: int| is_first_ix(s, c, i),
    decreases w,
{
    if forall|k: int| 0 <= k < w ==> s[k] != c {
        assert(is_first_ix(s, c, w));
    } else {
        let k = choose|k: int| 0 <= k < w && s[k] == c;
        lemma_first_below(s, c, k);
    }
}

/// A first occurrence is unique.
pub proof fn lemma_first_unique(s: Seq<char>, c: char, i: int, j: int)
    requires
        is_first_ix(s, c, i),
        is_first_ix(s, c, j),
    ensures
        i == j,
{
}

/// Whether `h` contains the substring `n`, by positions of characters.
pub fn contains_sub(h: &str, n: &str) -> (r: bool)
    ensures
        r == contains_seq(h@, n@),
{
    let hl = h.unicode_len();
    let nl = n.unicode_len();
    if nl > hl {
        assert(!contains_seq(h@, n@));
        return false;
    }
    if nl == 0 {
        assert(h@.subrange(0, 0) =~= n@);
        assert(occurs_at(h@, n@, 0));
        return true;
    }
    let mut i: usize = 0;
    while i <= hl - nl
        invariant
            hl == h@.len(),
            nl == n@.len(),
            0 < nl <= hl,
            0 <= i <= hl - nl + 1,
            forall|p: int| 0 <= p < i ==> !occurs_at(h@, n@, p),
        decreases hl - nl + 1 - i,
    {
        let mut j: usize = 0;
        let mut matched = true;
        while j < nl && matched
            invariant
                hl == h@.len(),
                nl == n@.len(),
                0 <= i <= hl - nl,
                0 <= j <= nl,
                matched ==> h@.subrange(i as int, i + j) == n@.subrange(0, j as int),
                !matched ==> !occurs_at(h@, n@, i as int),
            decreases (if matched { 1int } else { 0int }), nl - j,
        {
            if h.get_char(i + j) != n.get_char(j) {
                matched = false;
                assert(h@.subrange(i as int, i + nl) != n@) by {
                    assert(h@.subrange(i as int, i + nl)[j as int] == h@[i + j]);
                    assert(n@[j as int] != h@[i + j]);
                }
            } else {
                proof {
                    assert(h@.subrange(i as int, i + j + 1) =~= h@.subrange(i as int, i + j).push(
                        h@[i + j],
                    ));
                    assert(n@.subrange(0, j + 1) =~= n@.subrange(0, j as int).push(n@[j as int]));
                }
                j = j + 1;
            }
        }
        if matched {
            assert(n@.subrange(0, nl as int) =~= n@);
            assert(occurs_at(h@, n@, i as int));
            return true;
        }
        i = i + 1;
    }
    assert forall|p: int| !occurs_at(h@, n@, p) by {
        if occurs_at(h@, n@, p) {
            assert(0 <= p <= hl - nl);
        }
    }
    false
}

/// The position of the first occurrence of `c` in `s`, if any.
pub fn find_char(s: &str, c: char) -> (r: Option<usize>)
    ensures
        match r {
            Some(i) => is_first_ix(s@, c, i as int),
            None => !has_char(s@, c),
        },
{
    let n = s.unicode_len();
    let mut i: usize = 0;
    while i < n
        invariant
            n == s@.len(),
            0 <= i <= n,
            forall|k: int| 0 <= k < i ==> s@[k] != c,
        decreases n - i,
    {
        if s.get_char(i) == c {
            return Some(i);
        }
        i = i + 1;
    }
    None
}

/// Relies on String::push: appends exactly one character at the end.
#[verifier::external_body]
pub(crate) fn push_char(s: &mut String, c: char)
    ensures
        final(s)@ == old(s)@.push(c),
{
    s.push(c)
}

/// Upper-case a line (ASCII letters only). Total: accepts every string.
pub fn normalize(line: &str) -> (r: String)
    ensures
        r@ == upper_seq(line@),
{
    let n = line.unicode_len();
    let mut out = String::new();
    let mut i: usize = 0;
    while i < n
        invariant
            n == line@.len(),
            0 <= i <= n,
            out@ == upper_seq(line@).subrange(0, i as int),
        decreases n - i,
    {
        let c = line.get_char(i);
        let u: char = if 'a' <= c && c <= 'z' {
            ((c as u8) - 32) as char
        } else {
            c
        };
        assert(u == upper_char(line@[i as int]));
        push_char(&mut out, u);
        i = i + 1;
        assert(out@ =~= upper_seq(line@).subrange(0, i as int));
    }
    assert(out@ =~= upper_seq(line@));
    out
}

} // verus!
