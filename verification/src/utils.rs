//! Lexical scanner utilities.
//!
//! Every extractor takes the remaining input and returns either
//! `(remainder, extracted)` or an error message; none consumes more than
//! it reports. Each is specified against a `sp_extract_*` function over
//! the input's character sequence.

use vstd::prelude::*;

verus! {

broadcast use vstd::string::group_string_axioms;

// ---------------------------------------------------------------------
// Character classes of the surface syntax.
// ---------------------------------------------------------------------

pub open spec fn is_digit_char(c: char) -> bool {
    48 <= c as u32 <= 57
}

pub open spec fn is_space_char(c: char) -> bool {
    c == ' ' || c == '\n' || c == '\t'
}

pub open spec fn is_ascii_letter(c: char) -> bool {
    (65 <= c as u32 <= 90) || (97 <= c as u32 <= 122)
}

/// What `char::is_alphanumeric` returns: the Unicode classification of
/// one character, a function of the character alone.
pub uninterp spec fn is_word_char(c: char) -> bool;

/// Relies on `char::is_alphanumeric`: a pure classification by Unicode
/// general category; its documentation promises that ASCII letters and
/// digits are alphanumeric.
#[verifier::external_body]
pub(crate) fn char_is_alphanumeric(c: char) -> (r: bool)
    ensures
        r == is_word_char(c),
        is_ascii_letter(c) || is_digit_char(c) ==> r,
{
    c.is_alphanumeric()
}

pub(crate) fn digit_char(c: char) -> (r: bool)
    ensures
        r == is_digit_char(c),
{
    let u: u32 = c as u32;
    48 <= u && u <= 57
}

pub(crate) fn space_char(c: char) -> (r: bool)
    ensures
        r == is_space_char(c),
{
    c == ' ' || c == '\n' || c == '\t'
}

pub(crate) fn letter_char(c: char) -> (r: bool)
    ensures
        r == is_ascii_letter(c),
{
    let u: u32 = c as u32;
    (65 <= u && u <= 90) || (97 <= u && u <= 122)
}

// ---------------------------------------------------------------------
// The longest prefix whose characters satisfy a predicate.
// ---------------------------------------------------------------------

pub open spec fn prefix_len(s: Seq<char>, p: spec_fn(char) -> bool) -> nat
    decreases s.len(),
{
    if s.len() == 0 || !p(s[0]) {
        0
    } else {
        1 + prefix_len(s.skip(1), p)
    }
}

pub broadcast proof fn lemma_prefix_len_bound(s: Seq<char>, p: spec_fn(char) -> bool)
    ensures
        #[trigger] prefix_len(s, p) <= s.len(),
    decreases s.len(),
{
    if s.len() > 0 && p(s[0]) {
        lemma_prefix_len_bound(s.skip(1), p);
    }
}

/// The prefix consists of matching characters and stops at the first
/// non-matching one.
pub proof fn lemma_prefix_len_chars(s: Seq<char>, p: spec_fn(char) -> bool)
    ensures
        forall|j: int| 0 <= j < prefix_len(s, p) ==> p(s[j]),
        prefix_len(s, p) < s.len() ==> !p(s[prefix_len(s, p) as int]),
    decreases s.len(),
{
    broadcast use lemma_prefix_len_bound;

    if s.len() > 0 && p(s[0]) {
        lemma_prefix_len_chars(s.skip(1), p);
        assert forall|j: int| 0 <= j < prefix_len(s, p) implies p(s[j]) by {
            if j > 0 {
                assert(p(s.skip(1)[j - 1]));
            }
        }
    }
}

/// A count of matching characters followed by a boundary pins the
/// prefix length down.
pub proof fn lemma_prefix_len_is(s: Seq<char>, p: spec_fn(char) -> bool, n: nat)
    requires
        n <= s.len(),
        forall|j: int| 0 <= j < n ==> p(s[j]),
        n == s.len() || !p(s[n as int]),
    ensures
        prefix_len(s, p) == n,
    decreases n,
{
    if n == 0 {
    } else {
        assert(p(s[0]));
        lemma_prefix_len_is(s.skip(1), p, (n - 1) as nat);
    }
}

// Named predicates, so that specification and proof speak of one closure.

pub open spec fn digit_p() -> spec_fn(char) -> bool {
    |c: char| is_digit_char(c)
}

pub open spec fn space_p() -> spec_fn(char) -> bool {
    |c: char| is_space_char(c)
}

pub open spec fn word_p() -> spec_fn(char) -> bool {
    |c: char| is_word_char(c)
}

// ---------------------------------------------------------------------
// Specification-level extractors.
// ---------------------------------------------------------------------

/// Split off the longest prefix matching `p`: `(remainder, extracted)`.
pub open spec fn sp_take(s: Seq<char>, p: spec_fn(char) -> bool) -> (Seq<char>, Seq<char>) {
    let n = prefix_len(s, p) as int;
    (s.skip(n), s.take(n))
}

pub open spec fn sp_extract_digits(s: Seq<char>) -> Result<(Seq<char>, Seq<char>), Seq<char>> {
    let (rest, got) = sp_take(s, digit_p());
    if got.len() == 0 {
        Err("Expected digits"@)
    } else {
        Ok((rest, got))
    }
}

pub open spec fn sp_extract_whitespaces(s: Seq<char>) -> (Seq<char>, Seq<char>) {
    sp_take(s, space_p())
}

/// The remainder once leading whitespace is gone.
pub open spec fn sp_ws(s: Seq<char>) -> Seq<char> {
    sp_extract_whitespaces(s).0
}

pub open spec fn sp_extract_required_whitespaces(s: Seq<char>) -> Result<
    (Seq<char>, Seq<char>),
    Seq<char>,
> {
    let (rest, got) = sp_take(s, space_p());
    if got.len() == 0 {
        Err("Expected space"@)
    } else {
        Ok((rest, got))
    }
}

/// An identifier starts with an ASCII letter and continues with
/// alphanumeric characters.
pub open spec fn sp_extract_identifier(s: Seq<char>) -> Result<
    (Seq<char>, Seq<char>),
    Seq<char>,
> {
    if s.len() > 0 && is_ascii_letter(s[0]) {
        let (rest, got) = sp_take(s, word_p());
        if got.len() == 0 {
            Err("Expected identifier"@)
        } else {
            Ok((rest, got))
        }
    } else {
        Err("Identifier not found"@)
    }
}

pub open spec fn sp_tag_err(tag: Seq<char>) -> Seq<char> {
    "expected "@ + tag
}

pub open spec fn sp_extract_tag(tag: Seq<char>, s: Seq<char>) -> Result<Seq<char>, Seq<char>> {
    if tag.len() <= s.len() && s.take(tag.len() as int) == tag {
        Ok(s.skip(tag.len() as int))
    } else {
        Err(sp_tag_err(tag))
    }
}

// ---------------------------------------------------------------------
// Executable extractors.
// ---------------------------------------------------------------------

pub fn extract_digits(s: &str) -> (r: Result<(&str, &str), String>)
    ensures
        match (r, sp_extract_digits(s@)) {
            (Ok(p), Ok(q)) => p.0@ == q.0 && p.1@ == q.1,
            (Err(m), Err(q)) => m@ == q,
            _ => false,
        },
{
    let len = s.unicode_len();
    let mut i: usize = 0;
    loop
        invariant
            i <= len,
            len == s@.len(),
            forall|j: int| 0 <= j < i ==> is_digit_char(s@[j]),
        ensures
            i <= len,
            forall|j: int| 0 <= j < i ==> is_digit_char(s@[j]),
            i == len || !is_digit_char(s@[i as int]),
        decreases len - i,
    {
        if i >= len {
            break;
        }
        let c = s.get_char(i);
        if !digit_char(c) {
            break;
        }
        i = i + 1;
    }
    proof {
        lemma_prefix_len_is(s@, digit_p(), i as nat);
    }
    if i == 0 {
        Err(String::from_str("Expected digits"))
    } else {
        let rest = s.substring_char(i, len);
        let got = s.substring_char(0, i);
        Ok((rest, got))
    }
}

pub fn extract_whitespaces(s: &str) -> (r: (&str, &str))
    ensures
        r.0@ == sp_extract_whitespaces(s@).0,
        r.1@ == sp_extract_whitespaces(s@).1,
{
    let len = s.unicode_len();
    let mut i: usize = 0;
    loop
        invariant
            i <= len,
            len == s@.len(),
            forall|j: int| 0 <= j < i ==> is_space_char(s@[j]),
        ensures
            i <= len,
            forall|j: int| 0 <= j < i ==> is_space_char(s@[j]),
            i == len || !is_space_char(s@[i as int]),
        decreases len - i,
    {
        if i >= len {
            break;
        }
        let c = s.get_char(i);
        if !space_char(c) {
            break;
        }
        i = i + 1;
    }
    proof {
        lemma_prefix_len_is(s@, space_p(), i as nat);
    }
    let rest = s.substring_char(i, len);
    let got = s.substring_char(0, i);
    (rest, got)
}

pub fn extract_required_whitespaces(s: &str) -> (r: Result<(&str, &str), String>)
    ensures
        match (r, sp_extract_required_whitespaces(s@)) {
            (Ok(p), Ok(q)) => p.0@ == q.0 && p.1@ == q.1,
            (Err(m), Err(q)) => m@ == q,
            _ => false,
        },
{
    let (rest, got) = extract_whitespaces(s);
    if got.is_empty() {
        Err(String::from_str("Expected space"))
    } else {
        Ok((rest, got))
    }
}

pub fn extract_identifier(s: &str) -> (r: Result<(&str, &str), String>)
    ensures
        match (r, sp_extract_identifier(s@)) {
            (Ok(p), Ok(q)) => p.0@ == q.0 && p.1@ == q.1,
            (Err(m), Err(q)) => m@ == q,
            _ => false,
        },
{
    let len = s.unicode_len();
    if len == 0 {
        return Err(String::from_str("Identifier not found"));
    }
    let c0 = s.get_char(0);
    if !letter_char(c0) {
        return Err(String::from_str("Identifier not found"));
    }
    let mut i: usize = 0;
    loop
        invariant
            i <= len,
            len == s@.len(),
            forall|j: int| 0 <= j < i ==> is_word_char(s@[j]),
        ensures
            i <= len,
            forall|j: int| 0 <= j < i ==> is_word_char(s@[j]),
            i == len || !is_word_char(s@[i as int]),
        decreases len - i,
    {
        if i >= len {
            break;
        }
        let c = s.get_char(i);
        if !char_is_alphanumeric(c) {
            break;
        }
        i = i + 1;
    }
    proof {
        lemma_prefix_len_is(s@, word_p(), i as nat);
    }
    if i == 0 {
        Err(String::from_str("Expected identifier"))
    } else {
        let rest = s.substring_char(i, len);
        let got = s.substring_char(0, i);
        Ok((rest, got))
    }
}

pub fn extract_tag<'a, 'b>(tag: &'a str, s: &'b str) -> (r: Result<&'b str, String>)
    ensures
        match (r, sp_extract_tag(tag@, s@)) {
            (Ok(p), Ok(q)) => p@ == q,
            (Err(m), Err(q)) => m@ == q,
            _ => false,
        },
{
    let tlen = tag.unicode_len();
    let slen = s.unicode_len();
    if tlen > slen {
        return Err(String::from_str("expected ").concat(tag));
    }
    let mut i: usize = 0;
    loop
        invariant
            i <= tlen,
            tlen == tag@.len(),
            slen == s@.len(),
            tlen <= slen,
            forall|j: int| 0 <= j < i ==> s@[j] == tag@[j],
        ensures
            i <= tlen,
            forall|j: int| 0 <= j < i ==> s@[j] == tag@[j],
            i == tlen || s@[i as int] != tag@[i as int],
        decreases tlen - i,
    {
        if i >= tlen {
            break;
        }
        if s.get_char(i) != tag.get_char(i) {
            break;
        }
        i = i + 1;
    }
    if i == tlen {
        proof {
            assert(s@.take(tlen as int) =~= tag@);
        }
        Ok(s.substring_char(tlen, slen))
    } else {
        proof {
            assert(s@.take(tlen as int)[i as int] != tag@[i as int]);
        }
        Err(String::from_str("expected ").concat(tag))
    }
}

} // verus!
