use circmark_parse::document::{document, section, section_kind, Document, Section, SectionKind};
use circmark_parse::error::{Fault, ParseError, Reason};
use circmark_parse::twoport;

#[test]
fn test_section_kind() {
    assert_eq!(section_kind("@twoport"), Ok(("", SectionKind::Twoport)));
    assert!(section_kind("@something").is_err());
}

#[test]
fn test_section() {
    assert_eq!(section("@twoport\n|V1-R1|O"), Ok(("", Section::Twoport(twoport::Chain(vec![
        twoport::ChainNode::Shunt(twoport::Element::V("1")),
        twoport::ChainNode::Series(twoport::Element::R("1")),
        twoport::ChainNode::Shunt(twoport::Element::Open),
    ])))));
}

#[test]
fn test_document() {
    assert_eq!(document("@twoport |V1\n@twoport |V2"), Ok(("", Document {
        sections: vec![
            Section::Twoport(twoport::Chain(vec![twoport::ChainNode::Shunt(twoport::Element::V("1"))])),
            Section::Twoport(twoport::Chain(vec![twoport::ChainNode::Shunt(twoport::Element::V("2"))])),
        ],
    })));
}

#[test]
fn section_kind_failures() {
    assert_eq!(
        section_kind("@something"),
        Err(ParseError::Syntax(Fault { input: "@something", reason: Reason::UnknownSectionKind }))
    );
    assert_eq!(
        section_kind("@twoports"),
        Err(ParseError::Syntax(Fault { input: "@twoports", reason: Reason::UnknownSectionKind }))
    );
    assert_eq!(
        section_kind("@two"),
        Err(ParseError::Syntax(Fault { input: "@two", reason: Reason::UnknownSectionKind }))
    );
    assert_eq!(
        section_kind("twoport"),
        Err(ParseError::Syntax(Fault { input: "twoport", reason: Reason::ExpectedSection }))
    );
    assert_eq!(
        section_kind("@ twoport"),
        Err(ParseError::Syntax(Fault { input: "@ twoport", reason: Reason::ExpectedSection }))
    );
    assert_eq!(
        section_kind(""),
        Err(ParseError::Syntax(Fault { input: "", reason: Reason::ExpectedSection }))
    );
    assert_eq!(section_kind("@twoport |V1"), Ok((" |V1", SectionKind::Twoport)));
}

#[test]
fn section_needs_white_space_and_a_chain() {
    assert_eq!(
        section("@twoport|V1"),
        Err(ParseError::Syntax(Fault { input: "|V1", reason: Reason::ExpectedWhitespace }))
    );
    assert_eq!(
        section("@twoport"),
        Err(ParseError::Syntax(Fault { input: "", reason: Reason::ExpectedWhitespace }))
    );
    assert_eq!(
        section("@twoport \t\r\n R1"),
        Err(ParseError::Syntax(Fault { input: "R1", reason: Reason::ExpectedLink }))
    );
    assert_eq!(
        section("@twoport \t\r\n -R1 "),
        Ok((
            " ",
            Section::Twoport(twoport::Chain(vec![twoport::ChainNode::Series(twoport::Element::R("1"))]))
        ))
    );
    assert_eq!(
        section("@twoport |(-C1|L1)"),
        Err(ParseError::Violation(Fault { input: "|L1)", reason: Reason::NestedShunt }))
    );
}

#[test]
fn document_sections_and_white_space() {
    let v = |id| Section::Twoport(twoport::Chain(vec![twoport::ChainNode::Shunt(twoport::Element::V(id))]));
    assert_eq!(
        document("  \n@twoport |V1  \n\t "),
        Ok(("", Document { sections: vec![v("1")] }))
    );
    assert_eq!(
        document("@twoport |V1 @twoport |V2 @twoport |V3"),
        Ok(("", Document { sections: vec![v("1"), v("2"), v("3")] }))
    );
    assert_eq!(
        document("@twoport |V1 rest"),
        Ok(("rest", Document { sections: vec![v("1")] }))
    );
    assert_eq!(
        document("@twoport |V1 @other |V2"),
        Ok(("@other |V2", Document { sections: vec![v("1")] }))
    );
    assert_eq!(
        document("@twoport |V1 @twoport"),
        Ok(("@twoport", Document { sections: vec![v("1")] }))
    );
}

#[test]
fn document_failures() {
    assert_eq!(
        document(""),
        Err(ParseError::Syntax(Fault { input: "", reason: Reason::ExpectedSection }))
    );
    assert_eq!(
        document("  |V1"),
        Err(ParseError::Syntax(Fault { input: "|V1", reason: Reason::ExpectedSection }))
    );
    assert_eq!(
        document(" @circuit R1"),
        Err(ParseError::Syntax(Fault { input: "@circuit R1", reason: Reason::UnknownSectionKind }))
    );
    assert_eq!(
        document("@twoport |V1\n@twoport |(-R1|R2)"),
        Err(ParseError::Violation(Fault { input: "|R2)", reason: Reason::NestedShunt }))
    );
}
