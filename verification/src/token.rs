//! The lexical level of the notation: fixed tags, identifiers and white
//! space, recognised by `nom`.

use vstd::prelude::*;

verus! {

/// `text` begins with `pattern`.
pub open spec fn starts_with(text: Seq<char>, pattern: Seq<char>) -> bool {
    pattern.len() <= text.len() && text.subrange(0, pattern.len() as int) == pattern
}

/// One of `0-9`, `a-z`, `A-Z`.
pub open spec fn is_alphanumeric(c: char) -> bool {
    ('0' <= c && c <= '9') || ('a' <= c && c <= 'z') || ('A' <= c && c <= 'Z')
}

/// One of the letters that tag a lumped element: `R`, `C`, `V`, `L`, `Z`,
/// `I`.
pub open spec fn is_tag_letter(c: char) -> bool {
    c == 'R' || c == 'C' || c == 'V' || c == 'L' || c == 'Z' || c == 'I'
}

/// A space, a tab, a carriage return or a line feed.
pub open spec fn is_space(c: char) -> bool {
    c == ' ' || c == '\t' || c == '\r' || c == '\n'
}

/// How many alphanumeric characters `text` begins with.
pub open spec fn alphanumeric_run(text: Seq<char>) -> nat
    decreases text.len(),
{
    if text.len() > 0 && is_alphanumeric(text[0]) {
        1 + alphanumeric_run(text.skip(1))
    } else {
        0
    }
}

/// How many white-space characters `text` begins with.
pub open spec fn space_run(text: Seq<char>) -> nat
    decreases text.len(),
{
    if text.len() > 0 && is_space(text[0]) {
        1 + space_run(text.skip(1))
    } else {
        0
    }
}

/// `nom::bytes::complete::tag` on a string: where the input begins with the
/// pattern, what follows the pattern and the part that matched; nothing
/// where it does not.
#[verifier::external_body]
pub(crate) fn tag<'a>(pattern: &str, input: &'a str) -> (found: Option<(&'a str, &'a str)>)
    ensures
        match found {
            Some((rest, matched)) => {
                &&& starts_with(input@, pattern@)
                &&& matched@ == pattern@
                &&& rest@ == input@.skip(pattern@.len() as int)
            },
            None => !starts_with(input@, pattern@),
        },
{
    let parsed: nom::IResult<&str, &str> = nom::bytes::complete::tag(pattern)(input);
    parsed.ok()
}

/// `nom::character::complete::alphanumeric1` on a string: the longest
/// alphanumeric beginning of the input and what follows it; nothing where
/// the input begins with no alphanumeric character.
#[verifier::external_body]
pub(crate) fn alphanumeric1<'a>(input: &'a str) -> (found: Option<(&'a str, &'a str)>)
    ensures
        match found {
            Some((rest, matched)) => {
                &&& alphanumeric_run(input@) > 0
                &&& matched@ == input@.take(alphanumeric_run(input@) as int)
                &&& rest@ == input@.skip(alphanumeric_run(input@) as int)
            },
            None => alphanumeric_run(input@) == 0,
        },
{
    let parsed: nom::IResult<&str, &str> = nom::character::complete::alphanumeric1(input);
    parsed.ok()
}

/// `nom::character::complete::multispace0` on a string: what follows the
/// white space that the input begins with.
#[verifier::external_body]
pub(crate) fn multispace0<'a>(input: &'a str) -> (rest: &'a str)
    ensures
        rest@ == input@.skip(space_run(input@) as int),
{
    let parsed: nom::IResult<&str, &str> = nom::character::complete::multispace0(input);
    match parsed {
        Ok((rest, _)) => rest,
        Err(_) => input,
    }
}

/// `nom::character::complete::multispace1` on a string: what follows the
/// white space that the input begins with; nothing where it begins with
/// none.
#[verifier::external_body]
pub(crate) fn multispace1<'a>(input: &'a str) -> (found: Option<&'a str>)
    ensures
        match found {
            Some(rest) => space_run(input@) > 0 && rest@ == input@.skip(space_run(input@) as int),
            None => space_run(input@) == 0,
        },
{
    let parsed: nom::IResult<&str, &str> = nom::character::complete::multispace1(input);
    match parsed {
        Ok((rest, _)) => Some(rest),
        Err(_) => None,
    }
}

/// A run is no longer than the text.
pub proof fn lemma_alphanumeric_run_within(text: Seq<char>)
    ensures
        alphanumeric_run(text) <= text.len(),
    decreases text.len(),
{
    if text.len() > 0 && is_alphanumeric(text[0]) {
        lemma_alphanumeric_run_within(text.skip(1));
    }
}

/// A run is no longer than the text.
pub proof fn lemma_space_run_within(text: Seq<char>)
    ensures
        space_run(text) <= text.len(),
    decreases text.len(),
{
    if text.len() > 0 && is_space(text[0]) {
        lemma_space_run_within(text.skip(1));
    }
}

/// Beginning with a pattern of one character is having it first.
pub proof fn lemma_starts_with_one(text: Seq<char>, c: char)
    ensures
        starts_with(text, seq![c]) <==> text.len() > 0 && text[0] == c,
{
    if text.len() > 0 && text[0] == c {
        assert(text.subrange(0, 1) =~= seq![c]);
    }
    if starts_with(text, seq![c]) {
        assert(text.subrange(0, 1)[0] == c);
    }
}

/// Beginning with a pattern of two characters is having them first.
pub proof fn lemma_starts_with_two(text: Seq<char>, c: char, d: char)
    ensures
        starts_with(text, seq![c, d]) <==> text.len() > 1 && text[0] == c && text[1] == d,
{
    if text.len() > 1 && text[0] == c && text[1] == d {
        assert(text.subrange(0, 2) =~= seq![c, d]);
    }
}

/// Tells whether the input begins with the character `c`, and hands out
/// what follows it.
pub(crate) fn leading<'a>(pattern: &str, c: char, input: &'a str) -> (rest: Option<&'a str>)
    requires
        pattern@ == seq![c],
    ensures
        match rest {
            Some(rest) => input@.len() > 0 && input@[0] == c && rest@ == input@.skip(1),
            None => !(input@.len() > 0 && input@[0] == c),
        },
{
    proof {
        lemma_starts_with_one(input@, c);
    }
    match tag(pattern, input) {
        Some((rest, _)) => Some(rest),
        None => None,
    }
}

/// Recognises the tag letter `c` with the identifier behind it, and hands
/// out what follows and the identifier.
pub(crate) fn identified<'a>(pattern: &str, c: char, input: &'a str) -> (found: Option<(&'a str, &'a str)>)
    requires
        pattern@ == seq![c],
    ensures
        match found {
            Some((rest, id)) => {
                let run = alphanumeric_run(input@.skip(1));
                &&& input@.len() > 0
                &&& input@[0] == c
                &&& run > 0
                &&& 1 + run <= input@.len()
                &&& id@ == input@.subrange(1, 1 + run as int)
                &&& rest@ == input@.skip(1 + run as int)
            },
            None => !(input@.len() > 0 && input@[0] == c && alphanumeric_run(input@.skip(1)) > 0),
        },
{
    match leading(pattern, c, input) {
        Some(behind) => match alphanumeric1(behind) {
            Some((rest, id)) => {
                proof {
                    let run = alphanumeric_run(input@.skip(1)) as int;
                    lemma_alphanumeric_run_within(input@.skip(1));
                }
                Some((rest, id))
            },
            None => None,
        },
        None => None,
    }
}

/// Text appended behind the end of a run does not lengthen the run.
pub proof fn lemma_alphanumeric_run_of_extension(text: Seq<char>, more: Seq<char>)
    requires
        alphanumeric_run(text) < text.len() || more.len() == 0 || !is_alphanumeric(more[0]),
    ensures
        alphanumeric_run(text + more) == alphanumeric_run(text),
    decreases text.len(),
{
    if text.len() > 0 && is_alphanumeric(text[0]) {
        assert((text + more).skip(1) =~= text.skip(1) + more);
        lemma_alphanumeric_run_of_extension(text.skip(1), more);
    }
}

/// Skipping twice is skipping once by the sum.
pub proof fn lemma_skip_skip<A>(s: Seq<A>, a: int, b: int)
    requires
        0 <= a,
        0 <= b,
        a + b <= s.len(),
    ensures
        s.skip(a).skip(b) == s.skip(a + b),
{
}

} // verus!
