//! Two-port chains of plain elements.
//!
//! At the top level stand series and shunt nodes, written with a leading
//! `-` and `|`. A node holds a lumped element (`R1`, `C2`, ...), an open
//! circuit (`O`), or a sub-chain in parentheses. A sub-chain stacks several
//! elements in one shunt slot, so it holds series nodes only.
//!
//! `|O-L1|(-C1-R1)|O`, for example, is a twoport that is open on both sides,
//! with an inductance in the signal path and a capacitance stacked on a
//! resistance across the output.

use vstd::prelude::*;
use vstd::string::StringExecFns;
use crate::error::{agrees, structural_error, syntax_error, Fault, ParseError, ParseErrorView, Reason};
use crate::token::{alphanumeric_run, identified, is_tag_letter, leading, lemma_skip_skip};

verus! {

/// A chain of nodes.
#[derive(PartialEq, Debug)]
pub struct Chain<'a>(pub Vec<ChainNode<'a>>);

/// A node of a chain: in the signal path, or across it.
#[derive(PartialEq, Debug)]
pub enum ChainNode<'a> {
    Series(Element<'a>),
    Shunt(Element<'a>),
}

/// What a node holds.
#[derive(PartialEq, Debug)]
pub enum Element<'a> {
    /// Resistance
    R(&'a str),
    /// Capacitance
    C(&'a str),
    /// Voltage source
    V(&'a str),
    /// Inductance
    L(&'a str),
    /// Impedance
    Z(&'a str),
    /// Current source
    I(&'a str),
    /// Open circuit
    Open,
    /// A sub-chain
    Sub(Chain<'a>),
}

/// What an `Element` stands for.
pub enum ElementView {
    R(Seq<char>),
    C(Seq<char>),
    V(Seq<char>),
    L(Seq<char>),
    Z(Seq<char>),
    I(Seq<char>),
    Open,
    Sub(Seq<ChainNodeView>),
}

/// What a `ChainNode` stands for.
pub enum ChainNodeView {
    Series(ElementView),
    Shunt(ElementView),
}

impl ElementView {
    /// Every sub-chain in the element holds series nodes only, at every
    /// depth.
    pub open spec fn is_stackable(self) -> bool
        decreases self,
    {
        match self {
            ElementView::Sub(nodes) => forall|i: int|
                0 <= i < nodes.len() ==> (#[trigger] nodes[i]) is Series && nodes[i]->Series_0.is_stackable(),
            _ => true,
        }
    }
}

impl ChainNodeView {
    /// What the node holds.
    pub open spec fn element(self) -> ElementView {
        match self {
            ChainNodeView::Series(element) => element,
            ChainNodeView::Shunt(element) => element,
        }
    }
}

/// Every sub-chain in the nodes holds series nodes only, at every depth.
pub open spec fn nodes_are_stackable(nodes: Seq<ChainNodeView>) -> bool {
    forall|i: int| 0 <= i < nodes.len() ==> (#[trigger] nodes[i]).element().is_stackable()
}

impl View for Element<'_> {
    type V = ElementView;

    open spec fn view(&self) -> ElementView
        decreases self,
    {
        match self {
            Element::R(id) => ElementView::R(id@),
            Element::C(id) => ElementView::C(id@),
            Element::V(id) => ElementView::V(id@),
            Element::L(id) => ElementView::L(id@),
            Element::Z(id) => ElementView::Z(id@),
            Element::I(id) => ElementView::I(id@),
            Element::Open => ElementView::Open,
            Element::Sub(chain) => ElementView::Sub(chain.view()),
        }
    }
}

impl View for ChainNode<'_> {
    type V = ChainNodeView;

    open spec fn view(&self) -> ChainNodeView
        decreases self,
    {
        match self {
            ChainNode::Series(element) => ChainNodeView::Series(element.view()),
            ChainNode::Shunt(element) => ChainNodeView::Shunt(element.view()),
        }
    }
}

impl View for Chain<'_> {
    type V = Seq<ChainNodeView>;

    open spec fn view(&self) -> Seq<ChainNodeView>
        decreases self,
    {
        Seq::new(
            self.0.len() as nat,
            |i: int|
                if 0 <= i < self.0.len() {
                    self.0[i].view()
                } else {
                    arbitrary()
                },
        )
    }
}

impl<'a> ChainNode<'a> {
    /// What the node holds.
    pub open spec fn held(&self) -> Element<'a> {
        match self {
            ChainNode::Series(element) => *element,
            ChainNode::Shunt(element) => *element,
        }
    }

    /// What the node holds.
    pub fn element(&self) -> (element: &Element<'a>)
        ensures
            *element == self.held(),
    {
        match self {
            ChainNode::Series(element) => element,
            ChainNode::Shunt(element) => element,
        }
    }
}

impl Chain<'_> {
    /// The nodes of the chain.
    pub fn nodes(&self) -> (nodes: &Vec<ChainNode>)
        ensures
            nodes == &self.0,
    {
        &self.0
    }
}

impl Element<'_> {
    /// The text of the display label: the tag letter followed by the
    /// identifier, and nothing for an open circuit or a sub-chain.
    pub open spec fn label_text(&self) -> Seq<char> {
        match self {
            Element::R(id) => seq!['R'] + id@,
            Element::C(id) => seq!['C'] + id@,
            Element::V(id) => seq!['V'] + id@,
            Element::L(id) => seq!['L'] + id@,
            Element::Z(id) => seq!['Z'] + id@,
            Element::I(id) => seq!['I'] + id@,
            _ => Seq::empty(),
        }
    }

    /// The display label of a lumped element or an open circuit. A
    /// sub-chain has none.
    pub fn to_string(&self) -> (label: String)
        requires
            !(self is Sub),
        ensures
            label@ == self.label_text(),
    {
        proof {
            reveal_strlit("R");
            reveal_strlit("C");
            reveal_strlit("V");
            reveal_strlit("L");
            reveal_strlit("Z");
            reveal_strlit("I");
        }
        match self {
            Element::R(id) => String::from_str("R").concat(id),
            Element::C(id) => String::from_str("C").concat(id),
            Element::V(id) => String::from_str("V").concat(id),
            Element::L(id) => String::from_str("L").concat(id),
            Element::Z(id) => String::from_str("Z").concat(id),
            Element::I(id) => String::from_str("I").concat(id),
            _ => String::new(),
        }
    }
}

/// The lumped element with the tag letter `letter` and the identifier `id`.
pub open spec fn tagged_element(letter: char, id: Seq<char>) -> ElementView
    recommends
        is_tag_letter(letter),
{
    if letter == 'R' {
        ElementView::R(id)
    } else if letter == 'C' {
        ElementView::C(id)
    } else if letter == 'V' {
        ElementView::V(id)
    } else if letter == 'L' {
        ElementView::L(id)
    } else if letter == 'Z' {
        ElementView::Z(id)
    } else {
        ElementView::I(id)
    }
}

/// `element := tag-letter identifier | "O" | "(" sub-chain ")"`.
pub open spec fn spec_element(s: Seq<char>) -> Result<(nat, ElementView), ParseErrorView>
    decreases s.len(), 0nat,
{
    if s.len() > 0 && s[0] == '(' {
        match spec_sub_chain(s.skip(1)) {
            Ok((n, nodes)) => {
                if 1 + n < s.len() && s[1 + n as int] == ')' {
                    Ok((n + 2, ElementView::Sub(nodes)))
                } else {
                    Err(syntax_error(s.skip(1 + n as int), Reason::ExpectedClosingParen))
                }
            },
            Err(error) => Err(error),
        }
    } else if s.len() > 0 && s[0] == 'O' {
        Ok((1, ElementView::Open))
    } else if s.len() > 0 && is_tag_letter(s[0]) && alphanumeric_run(s.skip(1)) > 0 {
        let run = alphanumeric_run(s.skip(1));
        Ok((1 + run, tagged_element(s[0], s.subrange(1, 1 + run as int))))
    } else {
        Err(syntax_error(s, Reason::ExpectedElementOrGroup))
    }
}

/// `sub-chain := series-node+`. A shunt node in a sub-chain is a violation
/// of structure, wherever in the sub-chain it stands; a `|` that begins no
/// node ends the sub-chain like any other text.
pub open spec fn spec_sub_chain(s: Seq<char>) -> Result<(nat, Seq<ChainNodeView>), ParseErrorView>
    decreases s.len(), 1nat,
{
    if s.len() > 0 && s[0] == '|' && spec_element(s.skip(1)) is Ok {
        Err(structural_error(s, Reason::NestedShunt))
    } else if s.len() > 0 && s[0] == '-' {
        match spec_element(s.skip(1)) {
            Ok((m, element)) => {
                let node = ChainNodeView::Series(element);
                if 1 + m < s.len() && (s[1 + m as int] == '-' || s[1 + m as int] == '|') {
                    match spec_sub_chain(s.skip(1 + m as int)) {
                        Ok((k, more)) => Ok((1 + m + k, seq![node] + more)),
                        Err(error) => if error.is_hard() {
                            Err(error)
                        } else {
                            Ok((1 + m, seq![node]))
                        },
                    }
                } else {
                    Ok((1 + m, seq![node]))
                }
            },
            Err(error) => Err(error),
        }
    } else {
        Err(syntax_error(s, Reason::ExpectedLink))
    }
}

/// `node := "-" element | "|" element`.
pub open spec fn spec_chain_node(s: Seq<char>) -> Result<(nat, ChainNodeView), ParseErrorView> {
    if s.len() > 0 && s[0] == '-' {
        match spec_element(s.skip(1)) {
            Ok((n, element)) => Ok((1 + n, ChainNodeView::Series(element))),
            Err(error) => Err(error),
        }
    } else if s.len() > 0 && s[0] == '|' {
        match spec_element(s.skip(1)) {
            Ok((n, element)) => Ok((1 + n, ChainNodeView::Shunt(element))),
            Err(error) => Err(error),
        }
    } else {
        Err(syntax_error(s, Reason::ExpectedLink))
    }
}

/// `chain := node+`: the first node is owed; the chain ends before the first
/// text that is no node, and fails where a node violates structure.
pub open spec fn spec_chain(s: Seq<char>) -> Result<(nat, Seq<ChainNodeView>), ParseErrorView>
    decreases s.len(),
{
    match spec_chain_node(s) {
        Ok((n, node)) => {
            if n < s.len() && (s[n as int] == '-' || s[n as int] == '|') {
                match spec_chain(s.skip(n as int)) {
                    Ok((m, more)) => Ok((n + m, seq![node] + more)),
                    Err(error) => if error.is_hard() {
                        Err(error)
                    } else {
                        Ok((n, seq![node]))
                    },
                }
            } else {
                Ok((n, seq![node]))
            }
        },
        Err(error) => Err(error),
    }
}

/// In what the grammar yields, every sub-chain holds series nodes only, at
/// every depth.
pub proof fn lemma_element_is_stackable(s: Seq<char>)
    ensures
        spec_element(s) matches Ok((_, element)) ==> element.is_stackable(),
    decreases s.len(), 0nat,
{
    if s.len() > 0 && s[0] == '(' {
        lemma_sub_chain_is_stackable(s.skip(1));
    }
}

/// A sub-chain that the grammar yields holds series nodes only, and so does
/// every sub-chain in it.
pub proof fn lemma_sub_chain_is_stackable(s: Seq<char>)
    ensures
        spec_sub_chain(s) matches Ok((_, nodes)) ==> ElementView::Sub(nodes).is_stackable(),
    decreases s.len(), 1nat,
{
    if s.len() > 0 && s[0] == '-' {
        lemma_element_is_stackable(s.skip(1));
        if let Ok((m, element)) = spec_element(s.skip(1)) {
            if 1 + m < s.len() && (s[1 + m as int] == '-' || s[1 + m as int] == '|') {
                lemma_sub_chain_is_stackable(s.skip(1 + m as int));
            }
        }
    }
}

/// In a chain that the grammar yields, every sub-chain holds series nodes
/// only, at every depth.
pub proof fn lemma_chain_is_stackable(s: Seq<char>)
    ensures
        spec_chain(s) matches Ok((_, nodes)) ==> nodes_are_stackable(nodes),
    decreases s.len(),
{
    if let Ok((n, node)) = spec_chain_node(s) {
        lemma_element_is_stackable(s.skip(1));
        if n < s.len() && (s[n as int] == '-' || s[n as int] == '|') {
            lemma_chain_is_stackable(s.skip(n as int));
        }
    }
}

/// Shunt nodes in sub-chains are the one violation of structure: where the
/// grammar stops for good it stands before the `|` of a shunt node that it
/// could read, somewhere in the text.
pub open spec fn is_nested_shunt(error: ParseErrorView, s: Seq<char>) -> bool {
    &&& error.fault().reason == Reason::NestedShunt
    &&& exists|at: int|
        0 <= at < s.len() && s[at] == '|' && error.fault().input == #[trigger] s.skip(at) && spec_element(
            s.skip(at + 1),
        ) is Ok
}

/// The failure that `is_nested_shunt` tells of `inner`, a part of `s` that
/// begins at `offset`, holds of `s` too.
proof fn lemma_nested_shunt_from(error: ParseErrorView, s: Seq<char>, offset: int)
    requires
        0 <= offset <= s.len(),
        is_nested_shunt(error, s.skip(offset)),
    ensures
        is_nested_shunt(error, s),
{
    let inner = s.skip(offset);
    let at = choose|at: int|
        0 <= at < inner.len() && inner[at] == '|' && error.fault().input == #[trigger] inner.skip(at)
            && spec_element(inner.skip(at + 1)) is Ok;
    assert(inner.skip(at + 1) =~= s.skip(offset + at + 1));
    assert(error.fault().input == s.skip(offset + at));
}

/// An element fails for good only at a shunt node in a sub-chain.
pub proof fn lemma_element_violation(s: Seq<char>)
    ensures
        spec_element(s) matches Err(error) ==> (error.is_hard() ==> is_nested_shunt(error, s)),
    decreases s.len(), 0nat,
{
    if s.len() > 0 && s[0] == '(' {
        lemma_sub_chain_violation(s.skip(1));
        if let Err(error) = spec_sub_chain(s.skip(1)) {
            if error.is_hard() {
                lemma_nested_shunt_from(error, s, 1);
            }
        }
    }
}

/// A sub-chain fails for good only at a shunt node in a sub-chain.
pub proof fn lemma_sub_chain_violation(s: Seq<char>)
    ensures
        spec_sub_chain(s) matches Err(error) ==> (error.is_hard() ==> is_nested_shunt(error, s)),
    decreases s.len(), 1nat,
{
    if s.len() > 0 && s[0] == '|' && spec_element(s.skip(1)) is Ok {
        assert(s.skip(0) =~= s);
    } else if s.len() > 0 && s[0] == '-' {
        lemma_element_violation(s.skip(1));
        match spec_element(s.skip(1)) {
            Ok((m, element)) => {
                if 1 + m < s.len() && (s[1 + m as int] == '-' || s[1 + m as int] == '|') {
                    lemma_sub_chain_violation(s.skip(1 + m as int));
                    if let Err(error) = spec_sub_chain(s.skip(1 + m as int)) {
                        if error.is_hard() {
                            lemma_nested_shunt_from(error, s, 1 + m as int);
                        }
                    }
                }
            },
            Err(error) => {
                if error.is_hard() {
                    lemma_nested_shunt_from(error, s, 1);
                }
            },
        }
    }
}

/// A chain fails for good only at a shunt node in a sub-chain.
pub proof fn lemma_chain_violation(s: Seq<char>)
    ensures
        spec_chain(s) matches Err(error) ==> (error.is_hard() ==> is_nested_shunt(error, s)),
    decreases s.len(),
{
    if s.len() > 0 && (s[0] == '-' || s[0] == '|') {
        lemma_element_violation(s.skip(1));
        match spec_chain_node(s) {
            Ok((n, node)) => {
                if n < s.len() && (s[n as int] == '-' || s[n as int] == '|') {
                    lemma_chain_violation(s.skip(n as int));
                    if let Err(error) = spec_chain(s.skip(n as int)) {
                        if error.is_hard() {
                            lemma_nested_shunt_from(error, s, n as int);
                        }
                    }
                }
            },
            Err(error) => {
                if error.is_hard() {
                    lemma_nested_shunt_from(error, s, 1);
                }
            },
        }
    }
}

/// Parses what a node holds: a lumped element, an open circuit, or a
/// sub-chain in parentheses.
pub fn element<'a>(input: &'a str) -> (parsed: Result<(&'a str, Element<'a>), ParseError<'a>>)
    ensures
        agrees(parsed, input@, spec_element(input@)),
        parsed matches Ok((_, element)) ==> element@.is_stackable(),
    decreases input@.len(), 0nat,
{
    proof {
        lemma_element_is_stackable(input@);
        reveal_strlit("R");
        reveal_strlit("C");
        reveal_strlit("V");
        reveal_strlit("L");
        reveal_strlit("Z");
        reveal_strlit("I");
        reveal_strlit("O");
        reveal_strlit("(");
        reveal_strlit(")");
        assert("R"@ =~= seq!['R']);
        assert("C"@ =~= seq!['C']);
        assert("V"@ =~= seq!['V']);
        assert("L"@ =~= seq!['L']);
        assert("Z"@ =~= seq!['Z']);
        assert("I"@ =~= seq!['I']);
        assert("O"@ =~= seq!['O']);
        assert("("@ =~= seq!['(']);
        assert(")"@ =~= seq![')']);
    }
    if let Some((rest, id)) = identified("R", 'R', input) {
        return Ok((rest, Element::R(id)));
    }
    if let Some((rest, id)) = identified("C", 'C', input) {
        return Ok((rest, Element::C(id)));
    }
    if let Some((rest, id)) = identified("V", 'V', input) {
        return Ok((rest, Element::V(id)));
    }
    if let Some((rest, id)) = identified("L", 'L', input) {
        return Ok((rest, Element::L(id)));
    }
    if let Some((rest, id)) = identified("Z", 'Z', input) {
        return Ok((rest, Element::Z(id)));
    }
    if let Some((rest, id)) = identified("I", 'I', input) {
        return Ok((rest, Element::I(id)));
    }
    if let Some(rest) = leading("O", 'O', input) {
        return Ok((rest, Element::Open));
    }
    if let Some(inner) = leading("(", '(', input) {
        return match sub_chain(inner) {
            Ok((rest, chain)) => {
                let ghost n = spec_sub_chain(input@.skip(1))->Ok_0.0 as int;
                proof {
                    lemma_skip_skip(input@, 1, n);
                }
                match leading(")", ')', rest) {
                    Some(rest) => {
                        proof {
                            lemma_skip_skip(input@, 1 + n, 1);
                        }
                        Ok((rest, Element::Sub(chain)))
                    },
                    None => Err(
                        ParseError::Syntax(Fault { input: rest, reason: Reason::ExpectedClosingParen }),
                    ),
                }
            },
            Err(error) => Err(error),
        };
    }
    Err(ParseError::Syntax(Fault { input, reason: Reason::ExpectedElementOrGroup }))
}

/// What a series node of any chain is: `-` and what the node holds.
pub open spec fn spec_series_node(s: Seq<char>) -> Result<(nat, ChainNodeView), ParseErrorView> {
    if s.len() > 0 && s[0] == '-' {
        spec_chain_node(s)
    } else {
        Err(syntax_error(s, Reason::ExpectedLink))
    }
}

/// What a shunt node of a chain is: `|` and what the node holds.
pub open spec fn spec_shunt_node(s: Seq<char>) -> Result<(nat, ChainNodeView), ParseErrorView> {
    if s.len() > 0 && s[0] == '|' {
        spec_chain_node(s)
    } else {
        Err(syntax_error(s, Reason::ExpectedLink))
    }
}

/// What a node of a sub-chain is: a series node, and a violation of
/// structure where a shunt node stands.
pub open spec fn spec_sub_chain_node(s: Seq<char>) -> Result<(nat, ChainNodeView), ParseErrorView> {
    if spec_shunt_node(s) is Ok {
        Err(structural_error(s, Reason::NestedShunt))
    } else {
        spec_series_node(s)
    }
}

fn series_chain_node<'a>(input: &'a str) -> (parsed: Result<(&'a str, ChainNode<'a>), ParseError<'a>>)
    ensures
        agrees(parsed, input@, spec_series_node(input@)),
    decreases input@.len(), 1nat,
{
    proof {
        reveal_strlit("-");
        assert("-"@ =~= seq!['-']);
    }
    match leading("-", '-', input) {
        Some(behind) => match element(behind) {
            Ok((rest, element)) => {
                proof {
                    lemma_skip_skip(input@, 1, spec_element(input@.skip(1))->Ok_0.0 as int);
                }
                Ok((rest, ChainNode::Series(element)))
            },
            Err(error) => Err(error),
        },
        None => Err(ParseError::Syntax(Fault { input, reason: Reason::ExpectedLink })),
    }
}

fn shunt_chain_node<'a>(input: &'a str) -> (parsed: Result<(&'a str, ChainNode<'a>), ParseError<'a>>)
    ensures
        agrees(parsed, input@, spec_shunt_node(input@)),
    decreases input@.len(), 1nat,
{
    proof {
        reveal_strlit("|");
        assert("|"@ =~= seq!['|']);
    }
    match leading("|", '|', input) {
        Some(behind) => match element(behind) {
            Ok((rest, element)) => {
                proof {
                    lemma_skip_skip(input@, 1, spec_element(input@.skip(1))->Ok_0.0 as int);
                }
                Ok((rest, ChainNode::Shunt(element)))
            },
            Err(error) => Err(error),
        },
        None => Err(ParseError::Syntax(Fault { input, reason: Reason::ExpectedLink })),
    }
}

fn sub_chain_node<'a>(input: &'a str) -> (parsed: Result<(&'a str, ChainNode<'a>), ParseError<'a>>)
    ensures
        agrees(parsed, input@, spec_sub_chain_node(input@)),
    decreases input@.len(), 2nat,
{
    if shunt_chain_node(input).is_ok() {
        return Err(ParseError::Violation(Fault { input, reason: Reason::NestedShunt }));
    }
    series_chain_node(input)
}

/// Appends `more` to the nodes that stand before `start`, where the nodes
/// from `start` on are `inner`.
pub open spec fn continued(
    before: Seq<ChainNodeView>,
    start: int,
    inner: Result<(nat, Seq<ChainNodeView>), ParseErrorView>,
) -> Result<(nat, Seq<ChainNodeView>), ParseErrorView> {
    match inner {
        Ok((m, more)) => Ok(((start + m) as nat, before + more)),
        Err(error) => Err(error),
    }
}

fn sub_chain<'a>(input: &'a str) -> (parsed: Result<(&'a str, Chain<'a>), ParseError<'a>>)
    ensures
        agrees(parsed, input@, spec_sub_chain(input@)),
    decreases input@.len(), 3nat,
{
    let (first_rest, first) = match sub_chain_node(input) {
        Ok(found) => found,
        Err(error) => return Err(error),
    };
    let mut rest = first_rest;
    let mut chain = Chain(Vec::new());
    chain.0.push(first);
    let ghost mut start: int = 0;
    assert(input@.skip(0) =~= input@);
    loop
        invariant_except_break
            0 <= start <= input@.len(),
            chain.0@.len() > 0,
            rest@.len() < input@.len(),
            spec_sub_chain_node(input@.skip(start)) matches Ok((n, node)) && {
                &&& start + n <= input@.len()
                &&& rest@ == input@.skip(start + n)
                &&& node == chain@.last()
            },
            !(spec_sub_chain(input@.skip(start)) matches Err(error) && !error.is_hard()),
            spec_sub_chain(input@) == continued(chain@.drop_last(), start, spec_sub_chain(input@.skip(start))),
        ensures
            spec_sub_chain(input@) is Ok,
            agrees(Ok::<(&'a str, Chain<'a>), ParseError<'a>>((rest, chain)), input@, spec_sub_chain(input@)),
        decreases rest@.len(),
    {
        let ghost here = input@.skip(start);
        let ghost n = spec_sub_chain_node(here)->Ok_0.0 as int;
        let ghost before = chain@;
        proof {
            lemma_skip_skip(input@, start, n);
        }
        match sub_chain_node(rest) {
            Ok((behind, node)) => {
                proof {
                    let k = spec_sub_chain_node(rest@)->Ok_0.0 as int;
                    lemma_skip_skip(input@, start + n, k);
                }
                chain.0.push(node);
                rest = behind;
                proof {
                    assert(chain@.drop_last() =~= before);
                    if spec_sub_chain(here.skip(n)) is Ok {
                        let more = spec_sub_chain(here.skip(n))->Ok_0.1;
                        assert(before.drop_last() + (seq![before.last()] + more) =~= before + more);
                    }
                    start = start + n;
                }
            },
            Err(error) => {
                proof {
                    assert(chain@.drop_last() + seq![chain@.last()] =~= chain@);
                }
                match error {
                    ParseError::Violation(_) => {
                        return Err(error);
                    },
                    ParseError::Syntax(_) => {
                        break ;
                    },
                }
            },
        }
    }
    Ok((rest, chain))
}

/// Parses one node of a chain.
pub fn chain_node<'a>(input: &'a str) -> (parsed: Result<(&'a str, ChainNode<'a>), ParseError<'a>>)
    ensures
        agrees(parsed, input@, spec_chain_node(input@)),
        parsed matches Ok((_, node)) ==> node@.element().is_stackable(),
{
    proof {
        lemma_element_is_stackable(input@.skip(1));
        reveal_strlit("-");
        assert("-"@ =~= seq!['-']);
    }
    if leading("-", '-', input).is_some() {
        series_chain_node(input)
    } else {
        shunt_chain_node(input)
    }
}

/// Parses a chain: one node or more.
pub fn chain<'a>(input: &'a str) -> (parsed: Result<(&'a str, Chain<'a>), ParseError<'a>>)
    ensures
        agrees(parsed, input@, spec_chain(input@)),
        parsed matches Ok((_, chain)) ==> nodes_are_stackable(chain@),
{
    proof {
        lemma_chain_is_stackable(input@);
    }
    let (first_rest, first) = match chain_node(input) {
        Ok(found) => found,
        Err(error) => return Err(error),
    };
    let mut rest = first_rest;
    let mut chain = Chain(Vec::new());
    chain.0.push(first);
    let ghost mut start: int = 0;
    assert(input@.skip(0) =~= input@);
    loop
        invariant_except_break
            0 <= start <= input@.len(),
            chain.0@.len() > 0,
            spec_chain_node(input@.skip(start)) matches Ok((n, node)) && {
                &&& start + n <= input@.len()
                &&& rest@ == input@.skip(start + n)
                &&& node == chain@.last()
            },
            !(spec_chain(input@.skip(start)) matches Err(error) && !error.is_hard()),
            spec_chain(input@) == continued(chain@.drop_last(), start, spec_chain(input@.skip(start))),
        ensures
            spec_chain(input@) is Ok,
            agrees(Ok::<(&'a str, Chain<'a>), ParseError<'a>>((rest, chain)), input@, spec_chain(input@)),
        decreases rest@.len(),
    {
        let ghost here = input@.skip(start);
        let ghost n = spec_chain_node(here)->Ok_0.0 as int;
        let ghost before = chain@;
        proof {
            lemma_skip_skip(input@, start, n);
        }
        match chain_node(rest) {
            Ok((behind, node)) => {
                proof {
                    let k = spec_chain_node(rest@)->Ok_0.0 as int;
                    lemma_skip_skip(input@, start + n, k);
                }
                chain.0.push(node);
                rest = behind;
                proof {
                    assert(chain@.drop_last() =~= before);
                    if spec_chain(here.skip(n)) is Ok {
                        let more = spec_chain(here.skip(n))->Ok_0.1;
                        assert(before.drop_last() + (seq![before.last()] + more) =~= before + more);
                    }
                    start = start + n;
                }
            },
            Err(error) => {
                proof {
                    assert(chain@.drop_last() + seq![chain@.last()] =~= chain@);
                }
                match error {
                    ParseError::Violation(_) => {
                        return Err(error);
                    },
                    ParseError::Syntax(_) => {
                        break ;
                    },
                }
            },
        }
    }
    Ok((rest, chain))
}

} // verus!
