use circmark_parse::error::{Fault, ParseError, Reason};
use circmark_parse::prelude;
use circmark_parse::twoport;
use circmark_parse::twoport::{chain, Chain};
use circmark_parse::{circmark_chain, ChainNode, CircmarkChain, Element};

#[test]
fn lib_test_simple_elements() {
    assert_eq!(circmark_parse::element("R1").unwrap().1, Element::R("1"));
    assert_eq!(circmark_parse::element("RL").unwrap().1, Element::R("L"));
    assert_eq!(circmark_parse::element("Rs").unwrap().1, Element::R("s"));
    assert_eq!(circmark_parse::element("R123something789").unwrap().1, Element::R("123something789"));
    assert_eq!(circmark_parse::element("L7").unwrap().1, Element::L("7"));
    assert_eq!(circmark_parse::element("C9").unwrap().1, Element::C("9"));
    assert_eq!(circmark_parse::element("V0").unwrap().1, Element::V("0"));
}

#[test]
fn lib_test_series_chain() {
    assert_eq!(
        circmark_chain("-R1-C1").unwrap().1,
        CircmarkChain(vec![
            ChainNode::Series(Element::R("1")),
            ChainNode::Series(Element::C("1")),
        ])
    );
}

#[test]
fn lib_test_shunt_chain() {
    assert_eq!(
        circmark_chain("|V1|RL").unwrap().1,
        CircmarkChain(vec![
            ChainNode::Shunt(Element::V("1")),
            ChainNode::Shunt(Element::R("L")),
        ])
    );
}

#[test]
fn lib_test_mixed_chain() {
    assert_eq!(
        circmark_chain("|V1|RL").unwrap().1,
        CircmarkChain(vec![
            ChainNode::Shunt(Element::V("1")),
            ChainNode::Shunt(Element::R("L")),
        ])
    );
}

#[test]
fn lib_test_nested_shunt_series() {
    assert_eq!(
        circmark_chain("|V1|(-C1-L1)").unwrap().1,
        CircmarkChain(vec![
            ChainNode::Shunt(Element::V("1")),
            ChainNode::Shunt(Element::Sub(CircmarkChain(vec![
                ChainNode::Series(Element::C("1")),
                ChainNode::Series(Element::L("1")),
            ]))),
        ])
    );
}

#[test]
fn twoport_test_simple_elements() {
    assert_eq!(twoport::element("R1").unwrap().1, twoport::Element::R("1"));
    assert_eq!(twoport::element("RL").unwrap().1, twoport::Element::R("L"));
    assert_eq!(twoport::element("Rs").unwrap().1, twoport::Element::R("s"));
    assert_eq!(twoport::element("R123something789").unwrap().1, twoport::Element::R("123something789"));
    assert_eq!(twoport::element("L7").unwrap().1, twoport::Element::L("7"));
    assert_eq!(twoport::element("C9").unwrap().1, twoport::Element::C("9"));
    assert_eq!(twoport::element("V0").unwrap().1, twoport::Element::V("0"));
}

#[test]
fn twoport_test_series_chain() {
    assert_eq!(
        chain("-R1-C1").unwrap().1,
        Chain(vec![
            twoport::ChainNode::Series(twoport::Element::R("1")),
            twoport::ChainNode::Series(twoport::Element::C("1")),
        ])
    );
}

#[test]
fn twoport_test_shunt_chain() {
    assert_eq!(
        chain("|V1|RL").unwrap().1,
        Chain(vec![
            twoport::ChainNode::Shunt(twoport::Element::V("1")),
            twoport::ChainNode::Shunt(twoport::Element::R("L")),
        ])
    );
}

#[test]
fn twoport_test_mixed_chain() {
    assert_eq!(
        chain("|V1|RL").unwrap().1,
        Chain(vec![
            twoport::ChainNode::Shunt(twoport::Element::V("1")),
            twoport::ChainNode::Shunt(twoport::Element::R("L")),
        ])
    );
}

#[test]
fn twoport_test_nested_shunt_series() {
    assert_eq!(
        chain("|V1|(-C1-L1)").unwrap().1,
        Chain(vec![
            twoport::ChainNode::Shunt(twoport::Element::V("1")),
            twoport::ChainNode::Shunt(twoport::Element::Sub(Chain(vec![
                twoport::ChainNode::Series(twoport::Element::C("1")),
                twoport::ChainNode::Series(twoport::Element::L("1")),
            ]))),
        ])
    );
}

#[test]
fn test_nested_shunt_shunt_not_allowed() {
    let ParseError::Violation(err) = chain("|V1|(-C1|L1)").unwrap_err() else { panic!("Expected failure") };
    assert_eq!("shunt within sub-chains is not supported", err.message());
}

#[test]
fn shunt_in_sub_chain_is_a_violation_with_its_place() {
    assert_eq!(
        chain("|(-C1|L1)"),
        Err(ParseError::Violation(Fault { input: "|L1)", reason: Reason::NestedShunt }))
    );
    assert_eq!(
        chain("|V1|(-C1|L1)"),
        Err(ParseError::Violation(Fault { input: "|L1)", reason: Reason::NestedShunt }))
    );
    assert_eq!(
        chain("|(|L1)"),
        Err(ParseError::Violation(Fault { input: "|L1)", reason: Reason::NestedShunt }))
    );
    assert_eq!(
        twoport::element("(-C1|L1)"),
        Err(ParseError::Violation(Fault { input: "|L1)", reason: Reason::NestedShunt }))
    );
    assert_eq!(
        circmark_chain("|(-C1|L1)"),
        Err(ParseError::Violation(Fault { input: "|L1)", reason: Reason::NestedShunt }))
    );
    assert_eq!(
        circmark_parse::chain_node("-(-C1|L1)"),
        Err(ParseError::Violation(Fault { input: "|L1)", reason: Reason::NestedShunt }))
    );
}

#[test]
fn violation_in_a_later_node_fails_the_chain() {
    assert_eq!(
        chain("-R1-R2|(-C1-(-L1|L2))-R3"),
        Err(ParseError::Violation(Fault { input: "|L2))-R3", reason: Reason::NestedShunt }))
    );
}

#[test]
fn bar_that_begins_no_node_ends_the_sub_chain() {
    assert_eq!(
        chain("|(-C1|?)"),
        Err(ParseError::Syntax(Fault { input: "|?)", reason: Reason::ExpectedClosingParen }))
    );
    assert_eq!(
        chain("-R1|(-C1|?)"),
        Ok((
            "|(-C1|?)",
            Chain(vec![twoport::ChainNode::Series(twoport::Element::R("1"))])
        ))
    );
}

#[test]
fn sub_chains_nest() {
    assert_eq!(
        chain("|(-(-R1-R2)-C1)"),
        Ok((
            "",
            Chain(vec![twoport::ChainNode::Shunt(twoport::Element::Sub(Chain(vec![
                twoport::ChainNode::Series(twoport::Element::Sub(Chain(vec![
                    twoport::ChainNode::Series(twoport::Element::R("1")),
                    twoport::ChainNode::Series(twoport::Element::R("2")),
                ]))),
                twoport::ChainNode::Series(twoport::Element::C("1")),
            ])))])
        ))
    );
}

#[test]
fn chain_failures() {
    assert_eq!(
        chain(""),
        Err(ParseError::Syntax(Fault { input: "", reason: Reason::ExpectedLink }))
    );
    assert_eq!(
        chain("R1"),
        Err(ParseError::Syntax(Fault { input: "R1", reason: Reason::ExpectedLink }))
    );
    assert_eq!(
        chain("-"),
        Err(ParseError::Syntax(Fault { input: "", reason: Reason::ExpectedElementOrGroup }))
    );
    assert_eq!(
        chain("-()"),
        Err(ParseError::Syntax(Fault { input: ")", reason: Reason::ExpectedLink }))
    );
    assert_eq!(
        chain("-(-R1"),
        Err(ParseError::Syntax(Fault { input: "", reason: Reason::ExpectedClosingParen }))
    );
    assert_eq!(
        twoport::chain_node("?"),
        Err(ParseError::Syntax(Fault { input: "?", reason: Reason::ExpectedLink }))
    );
}

#[test]
fn chain_elements_of_every_kind() {
    assert_eq!(
        chain("-Z1|I2-O"),
        Ok((
            "",
            Chain(vec![
                twoport::ChainNode::Series(twoport::Element::Z("1")),
                twoport::ChainNode::Shunt(twoport::Element::I("2")),
                twoport::ChainNode::Series(twoport::Element::Open),
            ])
        ))
    );
    assert_eq!(twoport::chain_node("|Oz"), Ok(("z", twoport::ChainNode::Shunt(twoport::Element::Open))));
}

#[test]
fn nodes_hand_out_the_chain() {
    let parsed = chain("-R1|C1").unwrap().1;
    assert_eq!(parsed.nodes(), &parsed.0);
    assert_eq!(parsed.nodes().len(), 2);
    let parsed = circmark_chain("-R1|C1-L1").unwrap().1;
    assert_eq!(parsed.nodes(), &parsed.0);
    assert_eq!(parsed.nodes().len(), 3);
}

#[test]
fn root_and_module_read_the_same_grammar() {
    let texts = ["-R1-C1", "|V1|(-C1-L1)", "", "-R1?", "|(-C1|L1)", "-(-R1", "|O-Zab|(-I1-(-R1))"];
    for text in texts {
        match (circmark_chain(text), chain(text)) {
            (Ok((left_rest, left)), Ok((right_rest, right))) => {
                assert_eq!(left_rest, right_rest);
                assert_eq!(format!("{:?}", left.0).replace("CircmarkChain", "Chain"), format!("{:?}", right.0));
            },
            (Err(left), Err(right)) => assert_eq!(left, right),
            (left, right) => panic!("{:?} against {:?}", left, right),
        }
    }
}

#[test]
fn element_labels() {
    assert_eq!(twoport::Element::R("1").to_string(), "R1");
    assert_eq!(twoport::Element::C("a").to_string(), "Ca");
    assert_eq!(twoport::Element::V("1").to_string(), "V1");
    assert_eq!(twoport::Element::L("1").to_string(), "L1");
    assert_eq!(twoport::Element::Z("1").to_string(), "Z1");
    assert_eq!(twoport::Element::I("1").to_string(), "I1");
    assert_eq!(twoport::Element::Open.to_string(), "");
    assert_eq!(Element::R("1").to_string(), "R1");
    assert_eq!(Element::Open.to_string(), "");
}

#[test]
fn prelude_names_the_chain_types() {
    let chain = prelude::CircmarkChain(vec![prelude::ChainNode::Series(prelude::Element::Open)]);
    assert_eq!(chain, CircmarkChain(vec![ChainNode::Series(Element::Open)]));
}
