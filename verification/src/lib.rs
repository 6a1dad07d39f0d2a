//! Circuit notation: parsing, natural-size layout and placement of drawing
//! primitives.
//!
//! The crate root holds the chain notation: series and shunt nodes, written
//! with a leading `-` and `|`, of lumped elements, open circuits and
//! sub-chains. It reads the grammar of the module `twoport` into types of
//! its own. The other modules hold the circuit notation with series and
//! parallel groups, sectioned documents, layout and drawing.

use vstd::prelude::*;
use vstd::string::StringExecFns;
use crate::error::{agrees, ParseError};
use crate::twoport::{
    nodes_are_stackable, spec_chain, spec_chain_node, spec_element, ChainNodeView, ElementView,
};

pub mod circuit;
pub mod document;
pub mod draw;
pub mod error;
pub mod layout;
pub mod prelude;
pub mod token;
pub mod twoport;

verus! {

/// A chain of nodes.
#[derive(PartialEq, Debug)]
pub struct CircmarkChain<'a>(pub Vec<ChainNode<'a>>);

/// A node of a chain: in the signal path, or across it.
#[derive(PartialEq, Debug)]
pub enum ChainNode<'a> {
    Series(Element<'a>),
    Shunt(Element<'a>),
}

/// What a node holds.
#[derive(PartialEq, Debug)]
pub enum Element<'a> {
    /// Resistance
    R(&'a str),
    /// Capacitance
    C(&'a str),
    /// Voltage source
    V(&'a str),
    /// Inductance
    L(&'a str),
    /// Impedance
    Z(&'a str),
    /// Current source
    I(&'a str),
    /// Open circuit
    Open,
    /// A sub-chain
    Sub(CircmarkChain<'a>),
}

impl View for Element<'_> {
    type V = ElementView;

    open spec fn view(&self) -> ElementView
        decreases self,
    {
        match self {
            Element::R(id) => ElementView::R(id@),
            Element::C(id) => ElementView::C(id@),
            Element::V(id) => ElementView::V(id@),
            Element::L(id) => ElementView::L(id@),
            Element::Z(id) => ElementView::Z(id@),
            Element::I(id) => ElementView::I(id@),
            Element::Open => ElementView::Open,
            Element::Sub(chain) => ElementView::Sub(chain.view()),
        }
    }
}

impl View for ChainNode<'_> {
    type V = ChainNodeView;

    open spec fn view(&self) -> ChainNodeView
        decreases self,
    {
        match self {
            ChainNode::Series(element) => ChainNodeView::Series(element.view()),
            ChainNode::Shunt(element) => ChainNodeView::Shunt(element.view()),
        }
    }
}

impl View for CircmarkChain<'_> {
    type V = Seq<ChainNodeView>;

    open spec fn view(&self) -> Seq<ChainNodeView>
        decreases self,
    {
        Seq::new(
            self.0.len() as nat,
            |i: int|
                if 0 <= i < self.0.len() {
                    self.0[i].view()
                } else {
                    arbitrary()
                },
        )
    }
}

impl CircmarkChain<'_> {
    /// The nodes of the chain.
    pub fn nodes(&self) -> (nodes: &Vec<ChainNode>)
        ensures
            nodes == &self.0,
    {
        &self.0
    }
}

impl Element<'_> {
    /// The text of the display label: the tag letter followed by the
    /// identifier, and nothing for an open circuit or a sub-chain.
    pub open spec fn label_text(&self) -> Seq<char> {
        match self {
            Element::R(id) => seq!['R'] + id@,
            Element::C(id) => seq!['C'] + id@,
            Element::V(id) => seq!['V'] + id@,
            Element::L(id) => seq!['L'] + id@,
            Element::Z(id) => seq!['Z'] + id@,
            Element::I(id) => seq!['I'] + id@,
            _ => Seq::empty(),
        }
    }

    /// The display label of a lumped element or an open circuit. A
    /// sub-chain has none.
    pub fn to_string(&self) -> (label: String)
        requires
            !(self is Sub),
        ensures
            label@ == self.label_text(),
    {
        proof {
            reveal_strlit("R");
            reveal_strlit("C");
            reveal_strlit("V");
            reveal_strlit("L");
            reveal_strlit("Z");
            reveal_strlit("I");
        }
        match self {
            Element::R(id) => String::from_str("R").concat(id),
            Element::C(id) => String::from_str("C").concat(id),
            Element::V(id) => String::from_str("V").concat(id),
            Element::L(id) => String::from_str("L").concat(id),
            Element::Z(id) => String::from_str("Z").concat(id),
            Element::I(id) => String::from_str("I").concat(id),
            _ => String::new(),
        }
    }
}

impl<'a> Element<'a> {
    /// The same element under the names of the crate root.
    fn of(element: &twoport::Element<'a>) -> (same: Element<'a>)
        ensures
            same@ == element@,
        decreases element,
    {
        match element {
            twoport::Element::R(id) => Element::R(id),
            twoport::Element::C(id) => Element::C(id),
            twoport::Element::V(id) => Element::V(id),
            twoport::Element::L(id) => Element::L(id),
            twoport::Element::Z(id) => Element::Z(id),
            twoport::Element::I(id) => Element::I(id),
            twoport::Element::Open => Element::Open,
            twoport::Element::Sub(chain) => Element::Sub(CircmarkChain::of(chain)),
        }
    }
}

impl<'a> ChainNode<'a> {
    /// The same node under the names of the crate root.
    fn of(node: &twoport::ChainNode<'a>) -> (same: ChainNode<'a>)
        ensures
            same@ == node@,
        decreases node,
    {
        match node {
            twoport::ChainNode::Series(element) => ChainNode::Series(Element::of(element)),
            twoport::ChainNode::Shunt(element) => ChainNode::Shunt(Element::of(element)),
        }
    }
}

impl<'a> CircmarkChain<'a> {
    /// The same chain under the names of the crate root.
    fn of(chain: &twoport::Chain<'a>) -> (same: CircmarkChain<'a>)
        ensures
            same@ == chain@,
        decreases chain,
    {
        let mut same = CircmarkChain(Vec::new());
        let mut i: usize = 0;
        while i < chain.0.len()
            invariant
                0 <= i <= chain.0.len(),
                same.0.len() == i,
                forall|k: int| 0 <= k < i ==> (#[trigger] same.0[k])@ == chain.0[k]@,
            decreases chain.0.len() - i,
        {
            let node = ChainNode::of(&chain.0[i]);
            same.0.push(node);
            i = i + 1;
        }
        same
    }
}

/// Parses what a node holds: a lumped element, an open circuit, or a
/// sub-chain in parentheses.
pub fn element<'a>(input: &'a str) -> (parsed: Result<(&'a str, Element<'a>), ParseError<'a>>)
    ensures
        agrees(parsed, input@, spec_element(input@)),
        parsed matches Ok((_, element)) ==> element@.is_stackable(),
{
    match twoport::element(input) {
        Ok((rest, element)) => Ok((rest, Element::of(&element))),
        Err(error) => Err(error),
    }
}

/// Parses one node of a chain.
pub fn chain_node<'a>(input: &'a str) -> (parsed: Result<(&'a str, ChainNode<'a>), ParseError<'a>>)
    ensures
        agrees(parsed, input@, spec_chain_node(input@)),
        parsed matches Ok((_, node)) ==> node@.element().is_stackable(),
{
    match twoport::chain_node(input) {
        Ok((rest, node)) => Ok((rest, ChainNode::of(&node))),
        Err(error) => Err(error),
    }
}

/// Parses a chain: one node or more.
pub fn circmark_chain<'a>(input: &'a str) -> (parsed: Result<(&'a str, CircmarkChain<'a>), ParseError<'a>>)
    ensures
        agrees(parsed, input@, spec_chain(input@)),
        parsed matches Ok((_, chain)) ==> nodes_are_stackable(chain@),
{
    match twoport::chain(input) {
        Ok((rest, chain)) => Ok((rest, CircmarkChain::of(&chain))),
        Err(error) => Err(error),
    }
}

} // verus!
