//! Sectioned documents: a document is a run of sections, each a header
//! `@kind` followed by white space and the section's body. The one kind
//! known is `twoport`, whose body is a chain.

use vstd::prelude::*;
use crate::error::{agrees, syntax_error, Fault, ParseError, ParseErrorView, Reason};
use crate::token::{
    alphanumeric_run, identified, lemma_skip_skip, lemma_space_run_within, multispace0,
    multispace1, space_run, tag,
};
use crate::twoport;
use crate::twoport::{nodes_are_stackable, spec_chain, ChainNodeView};

verus! {

/// A document: its sections, in the order of the text.
#[derive(Debug, PartialEq)]
pub struct Document<'a> {
    pub sections: Vec<Section<'a>>,
}

/// One section of a document.
#[derive(Debug, PartialEq)]
pub enum Section<'a> {
    Twoport(twoport::Chain<'a>),
}

/// The kinds of section.
#[derive(Debug, Copy, Clone, PartialEq, Eq, Structural)]
pub enum SectionKind {
    Twoport,
}

/// What a `Section` stands for.
pub enum SectionView {
    Twoport(Seq<ChainNodeView>),
}

impl View for SectionKind {
    type V = SectionKind;

    open spec fn view(&self) -> SectionKind {
        *self
    }
}

impl SectionView {
    /// Every sub-chain in the section holds series nodes only, at every
    /// depth.
    pub open spec fn is_stackable(self) -> bool {
        match self {
            SectionView::Twoport(nodes) => nodes_are_stackable(nodes),
        }
    }
}

impl View for Section<'_> {
    type V = SectionView;

    open spec fn view(&self) -> SectionView {
        match self {
            Section::Twoport(chain) => SectionView::Twoport(chain@),
        }
    }
}

impl View for Document<'_> {
    type V = Seq<SectionView>;

    open spec fn view(&self) -> Seq<SectionView> {
        Seq::new(self.sections@.len(), |i: int| self.sections@[i]@)
    }
}

/// A section header: `@` and a run of alphanumeric characters that names a
/// known kind.
pub open spec fn spec_section_kind(s: Seq<char>) -> Result<(nat, SectionKind), ParseErrorView> {
    if s.len() > 0 && s[0] == '@' && alphanumeric_run(s.skip(1)) > 0 {
        let run = alphanumeric_run(s.skip(1));
        if s.subrange(1, 1 + run as int) == "twoport"@ {
            Ok((1 + run, SectionKind::Twoport))
        } else {
            Err(syntax_error(s, Reason::UnknownSectionKind))
        }
    } else {
        Err(syntax_error(s, Reason::ExpectedSection))
    }
}

/// `section := "@twoport" ws chain`, with white space owed between the
/// header and the chain.
pub open spec fn spec_section(s: Seq<char>) -> Result<(nat, SectionView), ParseErrorView> {
    match spec_section_kind(s) {
        Ok((n, kind)) => {
            let space = space_run(s.skip(n as int));
            if space > 0 {
                match spec_chain(s.skip((n + space) as int)) {
                    Ok((m, nodes)) => Ok((n + space + m, SectionView::Twoport(nodes))),
                    Err(error) => Err(error),
                }
            } else {
                Err(syntax_error(s.skip(n as int), Reason::ExpectedWhitespace))
            }
        },
        Err(error) => Err(error),
    }
}

/// `document := section+`, each section with any white space around it.
/// The first section is owed; the document ends before the first text that
/// is no section, and fails where a section violates structure.
pub open spec fn spec_document(s: Seq<char>) -> Result<(nat, Seq<SectionView>), ParseErrorView>
    decreases s.len(),
{
    let lead = space_run(s);
    match spec_section(s.skip(lead as int)) {
        Ok((n, section)) => {
            let used = lead + n + space_run(s.skip((lead + n) as int));
            if used < s.len() && s[used as int] == '@' {
                match spec_document(s.skip(used as int)) {
                    Ok((m, more)) => Ok((used + m, seq![section] + more)),
                    Err(error) => if error.is_hard() {
                        Err(error)
                    } else {
                        Ok((used, seq![section]))
                    },
                }
            } else {
                Ok((used, seq![section]))
            }
        },
        Err(error) => Err(error),
    }
}

/// Parses a section header.
pub fn section_kind<'a>(input: &'a str) -> (parsed: Result<(&'a str, SectionKind), ParseError<'a>>)
    ensures
        agrees(parsed, input@, spec_section_kind(input@)),
{
    proof {
        reveal_strlit("@");
        assert("@"@ =~= seq!['@']);
    }
    match identified("@", '@', input) {
        Some((rest, kind)) => {
            assert(kind@.subrange(0, kind@.len() as int) =~= kind@);
            match tag("twoport", kind) {
                Some((behind, _)) => {
                    if behind.is_empty() {
                        Ok((rest, SectionKind::Twoport))
                    } else {
                        Err(ParseError::Syntax(Fault { input, reason: Reason::UnknownSectionKind }))
                    }
                },
                None => Err(ParseError::Syntax(Fault { input, reason: Reason::UnknownSectionKind })),
            }
        },
        None => Err(ParseError::Syntax(Fault { input, reason: Reason::ExpectedSection })),
    }
}

/// Parses one section.
pub fn section<'a>(input: &'a str) -> (parsed: Result<(&'a str, Section<'a>), ParseError<'a>>)
    ensures
        agrees(parsed, input@, spec_section(input@)),
        parsed matches Ok((_, section)) ==> section@.is_stackable(),
{
    let (rest, kind) = match section_kind(input) {
        Ok(found) => found,
        Err(error) => return Err(error),
    };
    let ghost n = spec_section_kind(input@)->Ok_0.0 as int;
    let ghost space = space_run(input@.skip(n)) as int;
    proof {
        lemma_space_run_within(input@.skip(n));
    }
    let body = match multispace1(rest) {
        Some(body) => body,
        None => return Err(ParseError::Syntax(Fault { input: rest, reason: Reason::ExpectedWhitespace })),
    };
    proof {
        lemma_skip_skip(input@, n, space);
    }
    match kind {
        SectionKind::Twoport => match twoport::chain(body) {
            Ok((rest, chain)) => {
                proof {
                    lemma_skip_skip(input@, n + space, spec_chain(body@)->Ok_0.0 as int);
                }
                Ok((rest, Section::Twoport(chain)))
            },
            Err(error) => Err(error),
        },
    }
}

/// One section with the white space around it.
pub open spec fn spec_spaced_section(s: Seq<char>) -> Result<(nat, SectionView), ParseErrorView> {
    let lead = space_run(s);
    match spec_section(s.skip(lead as int)) {
        Ok((n, section)) => Ok((lead + n + space_run(s.skip((lead + n) as int)), section)),
        Err(error) => Err(error),
    }
}

fn spaced_section<'a>(input: &'a str) -> (parsed: Result<(&'a str, Section<'a>), ParseError<'a>>)
    ensures
        agrees(parsed, input@, spec_spaced_section(input@)),
        parsed matches Ok((rest, section)) ==> space_run(rest@) == 0 && section@.is_stackable(),
{
    let ghost lead = space_run(input@) as int;
    proof {
        lemma_space_run_within(input@);
    }
    let begin = multispace0(input);
    match section(begin) {
        Ok((behind, section)) => {
            let ghost n = spec_section(begin@)->Ok_0.0 as int;
            proof {
                lemma_skip_skip(input@, lead, n);
                lemma_space_run_within(behind@);
                lemma_skip_skip(input@, lead + n, space_run(behind@) as int);
            }
            let rest = multispace0(behind);
            proof {
                lemma_space_run_spent(behind@);
            }
            Ok((rest, section))
        },
        Err(error) => Err(error),
    }
}

/// What is left behind a run of white space begins with none.
pub proof fn lemma_space_run_spent(text: Seq<char>)
    ensures
        space_run(text) <= text.len(),
        space_run(text.skip(space_run(text) as int)) == 0,
    decreases text.len(),
{
    if text.len() > 0 && crate::token::is_space(text[0]) {
        lemma_space_run_spent(text.skip(1));
        lemma_skip_skip(text, 1, space_run(text.skip(1)) as int);
    }
}

/// Appends `more` to the sections that stand before `start`, where the
/// sections from `start` on are `inner`.
pub open spec fn continued(
    before: Seq<SectionView>,
    start: int,
    inner: Result<(nat, Seq<SectionView>), ParseErrorView>,
) -> Result<(nat, Seq<SectionView>), ParseErrorView> {
    match inner {
        Ok((m, more)) => Ok(((start + m) as nat, before + more)),
        Err(error) => Err(error),
    }
}

/// Parses a document: one section or more.
#[verifier::rlimit(40)]
pub fn document<'a>(input: &'a str) -> (parsed: Result<(&'a str, Document<'a>), ParseError<'a>>)
    ensures
        agrees(parsed, input@, spec_document(input@)),
        parsed matches Ok((_, document)) ==> forall|i: int|
            0 <= i < document@.len() ==> (#[trigger] document@[i]).is_stackable(),
{
    let (first_rest, first) = match spaced_section(input) {
        Ok(found) => found,
        Err(error) => return Err(error),
    };
    let mut rest = first_rest;
    let mut document = Document { sections: Vec::new() };
    document.sections.push(first);
    let ghost mut start: int = 0;
    assert(input@.skip(0) =~= input@);
    loop
        invariant_except_break
            0 <= start <= input@.len(),
            document.sections@.len() > 0,
            space_run(rest@) == 0,
            forall|i: int| 0 <= i < document@.len() ==> (#[trigger] document@[i]).is_stackable(),
            spec_spaced_section(input@.skip(start)) matches Ok((n, section)) && {
                &&& start + n <= input@.len()
                &&& rest@ == input@.skip(start + n)
                &&& section == document@.last()
            },
            !(spec_document(input@.skip(start)) matches Err(error) && !error.is_hard()),
            spec_document(input@) == continued(
                document@.drop_last(),
                start,
                spec_document(input@.skip(start)),
            ),
        ensures
            spec_document(input@) is Ok,
            forall|i: int| 0 <= i < document@.len() ==> (#[trigger] document@[i]).is_stackable(),
            agrees(
                Ok::<(&'a str, Document<'a>), ParseError<'a>>((rest, document)),
                input@,
                spec_document(input@),
            ),
        decreases rest@.len(),
    {
        let ghost here = input@.skip(start);
        let ghost n = spec_spaced_section(here)->Ok_0.0 as int;
        let ghost before = document@;
        proof {
            lemma_skip_skip(input@, start, n);
        }
        match spaced_section(rest) {
            Ok((behind, section)) => {
                proof {
                    let k = spec_spaced_section(rest@)->Ok_0.0 as int;
                    lemma_skip_skip(input@, start + n, k);
                }
                document.sections.push(section);
                rest = behind;
                proof {
                    assert(document@ =~= before.push(section@));
                    assert(document@.drop_last() =~= before);
                    if spec_document(here.skip(n)) is Ok {
                        let more = spec_document(here.skip(n))->Ok_0.1;
                        assert(before.drop_last() + (seq![before.last()] + more) =~= before + more);
                    }
                    start = start + n;
                }
            },
            Err(error) => {
                proof {
                    assert(document@.drop_last() + seq![document@.last()] =~= document@);
                }
                match error {
                    ParseError::Violation(_) => {
                        return Err(error);
                    },
                    ParseError::Syntax(_) => {
                        break ;
                    },
                }
            },
        }
    }
    Ok((rest, document))
}

} // verus!
