//! Reading what the user typed.

use vstd::prelude::*;
use crate::text::{chars_of, lowercased, push_char, string_of, to_lowercase, trim, trim_bounds};

verus! {

/// Whether `c` is an ASCII letter or an ASCII digit.
pub open spec fn is_ascii_alphanumeric(c: char) -> bool {
    ('0' <= c <= '9') || ('a' <= c <= 'z') || ('A' <= c <= 'Z')
}

/// The lower-case form of an ASCII capital letter; any other character
/// unchanged.
pub open spec fn to_ascii_lowercase(c: char) -> char {
    if 'A' <= c <= 'Z' {
        ((c as u8) + 32) as char
    } else {
        c
    }
}

/// The ASCII letters and digits of `input`, in their order, with the
/// capital letters in lower case.
pub open spec fn parsed_input(input: Seq<char>) -> Seq<char> {
    input.filter(|c: char| is_ascii_alphanumeric(c)).map_values(|c: char| to_ascii_lowercase(c))
}

/// Whether the reply to a yes-or-no question, taken as given, is a yes: the
/// single letter `y`.
pub fn is_yes(reply: &str) -> (r: bool)
    ensures
        r == (reply@ == seq!['y']),
{
    let v = chars_of(reply);
    let r = v.len() == 1 && v[0] == 'y';
    assert(r == (v@ =~= seq!['y']));
    r
}

/// Whether the line that the user typed in reply to a yes-or-no question
/// means yes: without the whitespace around it and in lower case, it is
/// the single letter `y`.
pub fn user_confirmation(reply: &str) -> (r: bool)
    ensures
        r == (lowercased(trim(reply@)) == seq!['y']),
{
    let v = chars_of(reply);
    let (from, to) = trim_bounds(&v);
    let trimmed = string_of(&v, from, to);
    let lowered = to_lowercase(trimmed.as_str());
    is_yes(lowered.as_str())
}

/// Keeps the ASCII letters and digits of `input` and puts them in lower
/// case.
pub fn parse_input_string(input: &str) -> (processed: String)
    ensures
        processed@ == parsed_input(input@),
{
    let v = chars_of(input);
    let mut processed = String::new();
    let mut i: usize = 0;
    proof {
        reveal(Seq::filter);
        assert(v@.take(0) =~= Seq::<char>::empty());
        assert(parsed_input(v@.take(0)) =~= Seq::<char>::empty());
    }
    while i < v.len()
        invariant
            i <= v.len(),
            v@ == input@,
            processed@ == parsed_input(v@.take(i as int)),
        decreases v.len() - i,
    {
        let c = v[i];
        proof {
            let kept = |c: char| is_ascii_alphanumeric(c);
            let lower = |c: char| to_ascii_lowercase(c);
            let done = v@.take(i as int);
            assert(v@.take(i + 1) =~= done.push(c));
            done.lemma_filter_push(c, kept);
            assert(done.filter(kept).push(c).map_values(lower) =~= done.filter(kept).map_values(
                lower,
            ).push(lower(c)));
        }
        if (c >= '0' && c <= '9') || (c >= 'a' && c <= 'z') {
            push_char(&mut processed, c);
        } else if c >= 'A' && c <= 'Z' {
            push_char(&mut processed, ((c as u8) + 32) as char);
        }
        i += 1;
    }
    assert(v@.take(i as int) =~= v@);
    processed
}

} // verus!
