//! Parse failures: where the input stopped matching, and what was looked
//! for there.

use vstd::prelude::*;
use vstd::string::StringExecFns;

verus! {

/// Why a parse gave up.
#[derive(Debug, Copy, Clone, PartialEq, Eq, Structural)]
pub enum Reason {
    /// No element begins here.
    ExpectedElement,
    /// Neither an element nor a parenthesised group begins here.
    ExpectedElementOrGroup,
    /// A group was opened and is not closed here.
    ExpectedClosingParen,
    /// No link begins here, where a chain needs at least one.
    ExpectedLink,
    /// No section header begins here.
    ExpectedSection,
    /// The section header names a kind that is not known.
    UnknownSectionKind,
    /// White space is missing behind a section header.
    ExpectedWhitespace,
    /// A shunt link stands inside a sub-chain.
    NestedShunt,
}

/// A failure with its place: `input` is what was left of the text where the
/// parse gave up.
#[derive(Debug, PartialEq)]
pub struct Fault<'a> {
    pub input: &'a str,
    pub reason: Reason,
}

/// What a `Fault` stands for.
pub struct FaultView {
    pub input: Seq<char>,
    pub reason: Reason,
}

/// A parse failure.
#[derive(Debug, PartialEq)]
pub enum ParseError<'a> {
    /// The input does not match the grammar. A caller that has another
    /// reading of the same text may still try it.
    Syntax(Fault<'a>),
    /// The input breaks a rule of structure. No other reading is tried.
    Violation(Fault<'a>),
}

/// What a `ParseError` stands for.
pub enum ParseErrorView {
    Syntax(FaultView),
    Violation(FaultView),
}

impl View for Fault<'_> {
    type V = FaultView;

    open spec fn view(&self) -> FaultView {
        FaultView { input: self.input@, reason: self.reason }
    }
}

impl View for ParseError<'_> {
    type V = ParseErrorView;

    open spec fn view(&self) -> ParseErrorView {
        match self {
            ParseError::Syntax(fault) => ParseErrorView::Syntax(fault@),
            ParseError::Violation(fault) => ParseErrorView::Violation(fault@),
        }
    }
}

/// The syntax error for `reason` with `input` left.
pub open spec fn syntax_error(input: Seq<char>, reason: Reason) -> ParseErrorView {
    ParseErrorView::Syntax(FaultView { input, reason })
}

/// The structural violation for `reason` with `input` left.
pub open spec fn structural_error(input: Seq<char>, reason: Reason) -> ParseErrorView {
    ParseErrorView::Violation(FaultView { input, reason })
}

impl ParseErrorView {
    /// No other reading of the text is to be tried.
    pub open spec fn is_hard(self) -> bool {
        self is Violation
    }

    /// The failure, of whichever class.
    pub open spec fn fault(self) -> FaultView {
        match self {
            ParseErrorView::Syntax(fault) => fault,
            ParseErrorView::Violation(fault) => fault,
        }
    }
}

/// What a parser returned, against what the grammar gives for `input`: the
/// same value with exactly `consumed` characters taken off the input, or
/// the same failure.
pub open spec fn agrees<'a, T: View>(
    returned: Result<(&'a str, T), ParseError<'a>>,
    input: Seq<char>,
    grammar: Result<(nat, T::V), ParseErrorView>,
) -> bool {
    match grammar {
        Ok((consumed, value)) => {
            &&& returned matches Ok((rest, parsed))
            &&& consumed <= input.len()
            &&& rest@ == input.skip(consumed as int)
            &&& parsed@ == value
        },
        Err(error) => returned matches Err(failure) && failure@ == error,
    }
}

impl Reason {
    /// The message for the reason.
    pub open spec fn text(self) -> Seq<char> {
        match self {
            Reason::ExpectedElement => "expected element"@,
            Reason::ExpectedElementOrGroup => "expected element or group"@,
            Reason::ExpectedClosingParen => "expected closing paren"@,
            Reason::ExpectedLink => "expected at least one link"@,
            Reason::ExpectedSection => "expected section"@,
            Reason::UnknownSectionKind => "unknown section kind"@,
            Reason::ExpectedWhitespace => "expected whitespace"@,
            Reason::NestedShunt => "shunt within sub-chains is not supported"@,
        }
    }

    /// The message for the reason.
    pub fn message(&self) -> (message: String)
        ensures
            message@ == self.text(),
    {
        match self {
            Reason::ExpectedElement => String::from_str("expected element"),
            Reason::ExpectedElementOrGroup => String::from_str("expected element or group"),
            Reason::ExpectedClosingParen => String::from_str("expected closing paren"),
            Reason::ExpectedLink => String::from_str("expected at least one link"),
            Reason::ExpectedSection => String::from_str("expected section"),
            Reason::UnknownSectionKind => String::from_str("unknown section kind"),
            Reason::ExpectedWhitespace => String::from_str("expected whitespace"),
            Reason::NestedShunt => String::from_str("shunt within sub-chains is not supported"),
        }
    }
}

impl Fault<'_> {
    /// The message of the failure.
    pub fn message(&self) -> (message: String)
        ensures
            message@ == self.reason.text(),
    {
        self.reason.message()
    }
}

impl<'a> ParseError<'a> {
    /// The failure, of whichever class.
    pub fn fault(&self) -> (fault: &Fault<'a>)
        ensures
            fault@ == self@.fault(),
    {
        match self {
            ParseError::Syntax(fault) => fault,
            ParseError::Violation(fault) => fault,
        }
    }

    /// The message of the failure.
    pub fn message(&self) -> (message: String)
        ensures
            message@ == self@.fault().reason.text(),
    {
        self.fault().message()
    }
}

} // verus!
