//! The circuit notation: elements, series and parallel groups of them in
//! parentheses, and twoports whose links hold such sub-circuits.
//!
//! `(R1+R2||R3)` is `R1` in series with the parallel pair of `R2` and `R3`:
//! `||` binds tighter than `+`, and both group to the right.
//! `|O-((L1+R1)||C1)|O` is a twoport that is open on both sides, with a
//! tank circuit in the signal path. A shunt link may hold a sub-chain of
//! series links, `|(-C1-L1)`, for sub-circuits that stack in its slot; a
//! shunt link has no place in a sub-chain.

use vstd::prelude::*;
use vstd::string::StringExecFns;
use crate::error::{
    agrees, structural_error, syntax_error, Fault, ParseError, ParseErrorView, Reason,
};
use crate::token::{
    alphanumeric_run, identified, is_alphanumeric, is_tag_letter, leading,
    lemma_alphanumeric_run_of_extension,
    lemma_alphanumeric_run_within, lemma_skip_skip,
};

verus! {

/// A single circuit element. Every kind but `Open` carries the identifier
/// that followed its tag letter in the notation.
#[derive(PartialEq, Debug)]
pub enum Element<'a> {
    /// Resistance
    R(&'a str),
    /// Capacitance
    C(&'a str),
    /// Voltage source
    V(&'a str),
    /// Inductance
    L(&'a str),
    /// Impedance
    Z(&'a str),
    /// Current source
    I(&'a str),
    /// Open circuit
    Open,
}

/// A sub-circuit has two legs, like an element: it is either one element or
/// a group of sub-circuits.
#[derive(PartialEq, Debug)]
pub enum SubCircuit<'a> {
    /// One element, such as `R1`
    Element(Element<'a>),
    /// A group, such as `(R1||R2)`
    Group(Box<SubCircuitGroup<'a>>),
}

/// An arrangement of sub-circuits. The parsers of arrangements hand out a
/// group of one where they find one operand; no tree that `sub_circuit`
/// yields holds one.
#[derive(PartialEq, Debug)]
pub enum SubCircuitGroup<'a> {
    /// One sub-circuit on its own
    Single(SubCircuit<'a>),
    /// Left and right, in series
    Series(SubCircuit<'a>, SubCircuit<'a>),
    /// Top and bottom, in parallel
    Parallel(SubCircuit<'a>, SubCircuit<'a>),
}

impl Element<'_> {
    /// The text of the display label: the tag letter followed by the
    /// identifier, and nothing for an open circuit.
    pub open spec fn label_text(&self) -> Seq<char> {
        match self {
            Element::R(id) => seq!['R'] + id@,
            Element::C(id) => seq!['C'] + id@,
            Element::V(id) => seq!['V'] + id@,
            Element::L(id) => seq!['L'] + id@,
            Element::Z(id) => seq!['Z'] + id@,
            Element::I(id) => seq!['I'] + id@,
            Element::Open => Seq::empty(),
        }
    }

    /// The display label of the element.
    pub fn label(&self) -> (label: String)
        ensures
            label@ == self.label_text(),
    {
        proof {
            reveal_strlit("R");
            reveal_strlit("C");
            reveal_strlit("V");
            reveal_strlit("L");
            reveal_strlit("Z");
            reveal_strlit("I");
            assert("R"@ =~= seq!['R']);
            assert("C"@ =~= seq!['C']);
            assert("V"@ =~= seq!['V']);
            assert("L"@ =~= seq!['L']);
            assert("Z"@ =~= seq!['Z']);
            assert("I"@ =~= seq!['I']);
        }
        match self {
            Element::R(id) => tagged("R", 'R', id),
            Element::C(id) => tagged("C", 'C', id),
            Element::V(id) => tagged("V", 'V', id),
            Element::L(id) => tagged("L", 'L', id),
            Element::Z(id) => tagged("Z", 'Z', id),
            Element::I(id) => tagged("I", 'I', id),
            Element::Open => String::new(),
        }
    }
}

/// The identifier behind its tag letter.
fn tagged(tag: &str, letter: char, id: &str) -> (label: String)
    requires
        tag@ == seq![letter],
    ensures
        label@ == seq![letter] + id@,
{
    String::from_str(tag).concat(id)
}

/// One entry of a two-port chain: in the signal path, or branching to the
/// reference rail.
#[derive(PartialEq, Debug)]
pub enum TwoportLink<'a> {
    Series(SubCircuit<'a>),
    Shunt(SubCircuit<'a>),
}

/// A twoport: series and shunt links along a signal path. A voltage divider
/// has three of them, a shunt voltage source, a series resistance and a
/// shunt resistance.
#[derive(PartialEq, Debug)]
pub struct Twoport<'a> {
    pub links: Vec<TwoportLink<'a>>,
}

/// A document: either a two-ended circuit or a twoport network.
#[derive(PartialEq, Debug)]
pub enum Document<'a> {
    Circuit(SubCircuit<'a>),
    Twoport(Twoport<'a>),
}

/// What an `Element` stands for: its kind and the characters of its
/// identifier.
pub enum ElementView {
    R(Seq<char>),
    C(Seq<char>),
    V(Seq<char>),
    L(Seq<char>),
    Z(Seq<char>),
    I(Seq<char>),
    Open,
}

/// What a `SubCircuit` stands for.
pub enum SubCircuitView {
    Element(ElementView),
    Group(Box<SubCircuitGroupView>),
}

/// What a `SubCircuitGroup` stands for.
pub enum SubCircuitGroupView {
    Single(SubCircuitView),
    Series(SubCircuitView, SubCircuitView),
    Parallel(SubCircuitView, SubCircuitView),
}

/// What a `TwoportLink` stands for.
pub enum TwoportLinkView {
    Series(SubCircuitView),
    Shunt(SubCircuitView),
}

/// What a `Document` stands for.
pub enum DocumentView {
    Circuit(SubCircuitView),
    Twoport(Seq<TwoportLinkView>),
}

impl View for Element<'_> {
    type V = ElementView;

    open spec fn view(&self) -> ElementView {
        match self {
            Element::R(id) => ElementView::R(id@),
            Element::C(id) => ElementView::C(id@),
            Element::V(id) => ElementView::V(id@),
            Element::L(id) => ElementView::L(id@),
            Element::Z(id) => ElementView::Z(id@),
            Element::I(id) => ElementView::I(id@),
            Element::Open => ElementView::Open,
        }
    }
}

impl View for SubCircuit<'_> {
    type V = SubCircuitView;

    open spec fn view(&self) -> SubCircuitView
        decreases self,
    {
        match self {
            SubCircuit::Element(element) => SubCircuitView::Element(element@),
            SubCircuit::Group(group) => SubCircuitView::Group(Box::new((**group).view())),
        }
    }
}

impl View for SubCircuitGroup<'_> {
    type V = SubCircuitGroupView;

    open spec fn view(&self) -> SubCircuitGroupView
        decreases self,
    {
        match self {
            SubCircuitGroup::Single(circuit) => SubCircuitGroupView::Single(circuit@),
            SubCircuitGroup::Series(left, right) => SubCircuitGroupView::Series(left@, right@),
            SubCircuitGroup::Parallel(top, bottom) => SubCircuitGroupView::Parallel(top@, bottom@),
        }
    }
}

impl View for TwoportLink<'_> {
    type V = TwoportLinkView;

    open spec fn view(&self) -> TwoportLinkView {
        match self {
            TwoportLink::Series(circuit) => TwoportLinkView::Series(circuit@),
            TwoportLink::Shunt(circuit) => TwoportLinkView::Shunt(circuit@),
        }
    }
}

impl View for Twoport<'_> {
    type V = Seq<TwoportLinkView>;

    open spec fn view(&self) -> Seq<TwoportLinkView> {
        Seq::new(self.links@.len(), |i: int| self.links@[i]@)
    }
}

impl View for Document<'_> {
    type V = DocumentView;

    open spec fn view(&self) -> DocumentView {
        match self {
            Document::Circuit(circuit) => DocumentView::Circuit(circuit@),
            Document::Twoport(twoport) => DocumentView::Twoport(twoport@),
        }
    }
}

impl SubCircuitGroupView {
    /// The sub-circuit that the group amounts to: a group of one is the one,
    /// any other group is boxed.
    pub open spec fn collapsed(self) -> SubCircuitView {
        match self {
            SubCircuitGroupView::Single(circuit) => circuit,
            _ => SubCircuitView::Group(Box::new(self)),
        }
    }

    /// The group's operands hold no group of one.
    pub open spec fn is_minimal(self) -> bool
        decreases self,
    {
        match self {
            SubCircuitGroupView::Single(circuit) => circuit.is_minimal(),
            SubCircuitGroupView::Series(left, right) => left.is_minimal() && right.is_minimal(),
            SubCircuitGroupView::Parallel(top, bottom) => top.is_minimal() && bottom.is_minimal(),
        }
    }
}

impl SubCircuitView {
    /// The tree holds no group of one: every group in it has two operands.
    pub open spec fn is_minimal(self) -> bool
        decreases self,
    {
        match self {
            SubCircuitView::Element(_) => true,
            SubCircuitView::Group(group) => !(*group is Single) && group.is_minimal(),
        }
    }
}

impl TwoportLinkView {
    /// The link's sub-circuit holds no group of one.
    pub open spec fn is_minimal(self) -> bool {
        match self {
            TwoportLinkView::Series(circuit) => circuit.is_minimal(),
            TwoportLinkView::Shunt(circuit) => circuit.is_minimal(),
        }
    }
}

/// No link of the chain holds a group of one.
pub open spec fn links_are_minimal(links: Seq<TwoportLinkView>) -> bool {
    forall|i: int| 0 <= i < links.len() ==> (#[trigger] links[i]).is_minimal()
}

impl DocumentView {
    /// The document holds no group of one.
    pub open spec fn is_minimal(self) -> bool {
        match self {
            DocumentView::Circuit(circuit) => circuit.is_minimal(),
            DocumentView::Twoport(links) => links_are_minimal(links),
        }
    }
}

impl<'a> From<SubCircuitGroup<'a>> for SubCircuit<'a> {
    /// A group of one is the one; any other group is boxed.
    fn from(group: SubCircuitGroup<'a>) -> (circuit: SubCircuit<'a>)
        ensures
            circuit@ == group@.collapsed(),
    {
        match group {
            SubCircuitGroup::Single(circuit) => circuit,
            _ => SubCircuit::Group(Box::new(group)),
        }
    }
}

impl<'a> vstd::std_specs::convert::FromSpecImpl<SubCircuitGroup<'a>> for SubCircuit<'a> {
    open spec fn obeys_from_spec() -> bool {
        true
    }

    open spec fn from_spec(group: SubCircuitGroup<'a>) -> SubCircuit<'a> {
        match group {
            SubCircuitGroup::Single(circuit) => circuit,
            _ => SubCircuit::Group(Box::new(group)),
        }
    }
}

/// The lumped element with the tag letter `letter` and the identifier `id`.
pub open spec fn tagged_element(letter: char, id: Seq<char>) -> ElementView
    recommends
        is_tag_letter(letter),
{
    if letter == 'R' {
        ElementView::R(id)
    } else if letter == 'C' {
        ElementView::C(id)
    } else if letter == 'V' {
        ElementView::V(id)
    } else if letter == 'L' {
        ElementView::L(id)
    } else if letter == 'Z' {
        ElementView::Z(id)
    } else {
        ElementView::I(id)
    }
}

/// `element := ("R"|"C"|"V"|"L"|"Z"|"I") identifier | "O"`, where the
/// identifier is the longest run of alphanumeric characters behind the tag
/// letter, and not empty.
pub open spec fn spec_element(s: Seq<char>) -> Result<(nat, ElementView), ParseErrorView> {
    if s.len() > 0 && s[0] == 'O' {
        Ok((1, ElementView::Open))
    } else if s.len() > 0 && is_tag_letter(s[0]) && alphanumeric_run(s.skip(1)) > 0 {
        let run = alphanumeric_run(s.skip(1));
        Ok((1 + run, tagged_element(s[0], s.subrange(1, 1 + run as int))))
    } else {
        Err(syntax_error(s, Reason::ExpectedElement))
    }
}

/// `subcircuit := element | "(" series_expr ")"`. A group of one operand is
/// that operand.
pub open spec fn spec_sub_circuit(s: Seq<char>) -> Result<(nat, SubCircuitView), ParseErrorView>
    decreases s.len(), 0nat,
{
    if s.len() > 0 && s[0] == '(' {
        match spec_series(s.skip(1)) {
            Ok((n, group)) => {
                if 1 + n < s.len() && s[1 + n as int] == ')' {
                    Ok((n + 2, group.collapsed()))
                } else {
                    Err(syntax_error(s.skip(1 + n as int), Reason::ExpectedClosingParen))
                }
            },
            Err(error) => Err(error),
        }
    } else {
        match spec_element(s) {
            Ok((n, element)) => Ok((n, SubCircuitView::Element(element))),
            Err(_) => Err(syntax_error(s, Reason::ExpectedElementOrGroup)),
        }
    }
}

/// `parallel_expr := subcircuit ("||" parallel_expr)?`: right-associative,
/// and binding tighter than `+`. A `||` with no operand behind it is left
/// unread.
pub open spec fn spec_parallel(s: Seq<char>) -> Result<(nat, SubCircuitGroupView), ParseErrorView>
    decreases s.len(), 1nat,
{
    match spec_sub_circuit(s) {
        Ok((n, top)) => {
            if n + 1 < s.len() && s[n as int] == '|' && s[n as int + 1] == '|' {
                match spec_parallel(s.skip(n as int + 2)) {
                    Ok((m, bottom)) => Ok(
                        (n + 2 + m, SubCircuitGroupView::Parallel(top, bottom.collapsed())),
                    ),
                    Err(_) => Ok((n, SubCircuitGroupView::Single(top))),
                }
            } else {
                Ok((n, SubCircuitGroupView::Single(top)))
            }
        },
        Err(error) => Err(error),
    }
}

/// `series_expr := parallel_expr ("+" series_expr)?`: right-associative, of
/// the lowest precedence. A `+` with no operand behind it is left unread.
pub open spec fn spec_series(s: Seq<char>) -> Result<(nat, SubCircuitGroupView), ParseErrorView>
    decreases s.len(), 2nat,
{
    match spec_parallel(s) {
        Ok((n, left)) => {
            if n < s.len() && s[n as int] == '+' {
                match spec_series(s.skip(n as int + 1)) {
                    Ok((m, right)) => Ok(
                        (n + 1 + m, SubCircuitGroupView::Series(left.collapsed(), right.collapsed())),
                    ),
                    Err(_) => Ok((n, left)),
                }
            } else {
                Ok((n, left))
            }
        },
        Err(error) => Err(error),
    }
}

/// What a shunt link holds: a sub-chain in parentheses, which is where `(`
/// stands before `-` or `|`, or a sub-circuit.
pub open spec fn spec_shunt(s: Seq<char>) -> Result<(nat, SubCircuitView), ParseErrorView>
    decreases s.len(), 1nat,
{
    if s.len() > 1 && s[0] == '(' && (s[1] == '-' || s[1] == '|') {
        match spec_sub_chain(s.skip(1)) {
            Ok((n, circuit)) => {
                if 1 + n < s.len() && s[1 + n as int] == ')' {
                    Ok((n + 2, circuit))
                } else {
                    Err(syntax_error(s.skip(1 + n as int), Reason::ExpectedClosingParen))
                }
            },
            Err(error) => Err(error),
        }
    } else {
        spec_sub_circuit(s)
    }
}

/// `sub-chain := series-link+`, with `series-link := "-" subcircuit`: the
/// sub-circuits that stack in the slot of one shunt link. They amount to
/// their series arrangement, grouped to the right. A shunt link in a
/// sub-chain is a violation of structure, wherever in the sub-chain it
/// stands; a `|` that begins no link ends the sub-chain like any other
/// text.
pub open spec fn spec_sub_chain(s: Seq<char>) -> Result<(nat, SubCircuitView), ParseErrorView>
    decreases s.len(), 0nat,
{
    if s.len() > 0 && s[0] == '|' && spec_shunt(s.skip(1)) is Ok {
        Err(structural_error(s, Reason::NestedShunt))
    } else if s.len() > 0 && s[0] == '-' {
        match spec_sub_circuit(s.skip(1)) {
            Ok((m, first)) => {
                if 1 + m < s.len() && (s[1 + m as int] == '-' || s[1 + m as int] == '|') {
                    match spec_sub_chain(s.skip(1 + m as int)) {
                        Ok((k, others)) => Ok(
                            (
                                1 + m + k,
                                SubCircuitView::Group(Box::new(SubCircuitGroupView::Series(first, others))),
                            ),
                        ),
                        Err(error) => if error.is_hard() {
                            Err(error)
                        } else {
                            Ok((1 + m, first))
                        },
                    }
                } else {
                    Ok((1 + m, first))
                }
            },
            Err(error) => Err(error),
        }
    } else {
        Err(syntax_error(s, Reason::ExpectedLink))
    }
}

/// `link := "-" subcircuit | "|" subcircuit`, where a shunt link may hold a
/// sub-chain in place of the sub-circuit.
pub open spec fn spec_twoport_link(s: Seq<char>) -> Result<(nat, TwoportLinkView), ParseErrorView> {
    if s.len() > 0 && s[0] == '-' {
        match spec_sub_circuit(s.skip(1)) {
            Ok((n, circuit)) => Ok((1 + n, TwoportLinkView::Series(circuit))),
            Err(error) => Err(error),
        }
    } else if s.len() > 0 && s[0] == '|' {
        match spec_shunt(s.skip(1)) {
            Ok((n, circuit)) => Ok((1 + n, TwoportLinkView::Shunt(circuit))),
            Err(error) => Err(error),
        }
    } else {
        Err(syntax_error(s, Reason::ExpectedLink))
    }
}

/// `chain := link+`: the first link is owed; the chain ends before the first
/// text that is no link, and fails where a link violates structure.
pub open spec fn spec_twoport(s: Seq<char>) -> Result<(nat, Seq<TwoportLinkView>), ParseErrorView>
    decreases s.len(),
{
    match spec_twoport_link(s) {
        Ok((n, link)) => {
            if n < s.len() && (s[n as int] == '-' || s[n as int] == '|') {
                match spec_twoport(s.skip(n as int)) {
                    Ok((m, more)) => Ok((n + m, seq![link] + more)),
                    Err(error) => if error.is_hard() {
                        Err(error)
                    } else {
                        Ok((n, seq![link]))
                    },
                }
            } else {
                Ok((n, seq![link]))
            }
        },
        Err(error) => Err(error),
    }
}

/// Appends `more` to the links that stand before `start`, where the links
/// from `start` on are `inner`.
pub open spec fn continued(
    before: Seq<TwoportLinkView>,
    start: int,
    inner: Result<(nat, Seq<TwoportLinkView>), ParseErrorView>,
) -> Result<(nat, Seq<TwoportLinkView>), ParseErrorView> {
    match inner {
        Ok((m, more)) => Ok(((start + m) as nat, before + more)),
        Err(error) => Err(error),
    }
}

/// A document is a twoport where the text begins with `-` or `|`, and a
/// two-ended circuit otherwise.
pub open spec fn spec_document(s: Seq<char>) -> Result<(nat, DocumentView), ParseErrorView> {
    if s.len() > 0 && (s[0] == '|' || s[0] == '-') {
        match spec_twoport(s) {
            Ok((n, links)) => Ok((n, DocumentView::Twoport(links))),
            Err(error) => Err(error),
        }
    } else {
        match spec_sub_circuit(s) {
            Ok((n, circuit)) => Ok((n, DocumentView::Circuit(circuit))),
            Err(error) => Err(error),
        }
    }
}

/// A sub-circuit that the grammar yields holds no group of one.
pub proof fn lemma_sub_circuit_is_minimal(s: Seq<char>)
    ensures
        spec_sub_circuit(s) matches Ok((_, circuit)) ==> circuit.is_minimal(),
    decreases s.len(), 0nat,
{
    if s.len() > 0 && s[0] == '(' {
        lemma_series_is_minimal(s.skip(1));
    }
}

/// The operands of a parallel arrangement that the grammar yields hold no
/// group of one, and neither does the sub-circuit that it amounts to.
pub proof fn lemma_parallel_is_minimal(s: Seq<char>)
    ensures
        spec_parallel(s) matches Ok((_, group)) ==> group.is_minimal() && group.collapsed().is_minimal(),
    decreases s.len(), 1nat,
{
    lemma_sub_circuit_is_minimal(s);
    if let Ok((n, _)) = spec_sub_circuit(s) {
        if n + 1 < s.len() && s[n as int] == '|' && s[n as int + 1] == '|' {
            lemma_parallel_is_minimal(s.skip(n as int + 2));
        }
    }
}

/// The operands of a series arrangement that the grammar yields hold no
/// group of one, and neither does the sub-circuit that it amounts to.
pub proof fn lemma_series_is_minimal(s: Seq<char>)
    ensures
        spec_series(s) matches Ok((_, group)) ==> group.is_minimal() && group.collapsed().is_minimal(),
    decreases s.len(), 2nat,
{
    lemma_parallel_is_minimal(s);
    if let Ok((n, _)) = spec_parallel(s) {
        if n < s.len() && s[n as int] == '+' {
            lemma_series_is_minimal(s.skip(n as int + 1));
        }
    }
}

/// What the grammar yields for a shunt link holds no group of one.
pub proof fn lemma_shunt_is_minimal(s: Seq<char>)
    ensures
        spec_shunt(s) matches Ok((_, circuit)) ==> circuit.is_minimal(),
    decreases s.len(), 1nat,
{
    if s.len() > 1 && s[0] == '(' && (s[1] == '-' || s[1] == '|') {
        lemma_sub_chain_is_minimal(s.skip(1));
    } else {
        lemma_sub_circuit_is_minimal(s);
    }
}

/// What a sub-chain amounts to holds no group of one.
pub proof fn lemma_sub_chain_is_minimal(s: Seq<char>)
    ensures
        spec_sub_chain(s) matches Ok((_, circuit)) ==> circuit.is_minimal(),
    decreases s.len(), 0nat,
{
    if s.len() > 0 && s[0] == '-' {
        lemma_sub_circuit_is_minimal(s.skip(1));
        if let Ok((m, first)) = spec_sub_circuit(s.skip(1)) {
            if 1 + m < s.len() && (s[1 + m as int] == '-' || s[1 + m as int] == '|') {
                lemma_sub_chain_is_minimal(s.skip(1 + m as int));
            }
        }
    }
}

/// No link of a twoport that the grammar yields holds a group of one.
pub proof fn lemma_twoport_is_minimal(s: Seq<char>)
    ensures
        spec_twoport(s) matches Ok((_, links)) ==> links_are_minimal(links),
    decreases s.len(),
{
    if let Ok((n, link)) = spec_twoport_link(s) {
        lemma_sub_circuit_is_minimal(s.skip(1));
        lemma_shunt_is_minimal(s.skip(1));
        if n < s.len() && (s[n as int] == '-' || s[n as int] == '|') {
            lemma_twoport_is_minimal(s.skip(n as int));
        }
    }
}

/// Shunt links in sub-chains are the one violation of structure: where the
/// grammar stops for good it stands before the `|` of a shunt link that it
/// could read, somewhere in the text.
pub open spec fn is_nested_shunt(error: ParseErrorView, s: Seq<char>) -> bool {
    &&& error.fault().reason == Reason::NestedShunt
    &&& exists|at: int|
        0 <= at < s.len() && s[at] == '|' && error.fault().input == #[trigger] s.skip(at) && spec_shunt(
            s.skip(at + 1),
        ) is Ok
}

/// The failure that `is_nested_shunt` tells of a part of `s` that begins at
/// `offset` holds of `s` too.
proof fn lemma_nested_shunt_from(error: ParseErrorView, s: Seq<char>, offset: int)
    requires
        0 <= offset <= s.len(),
        is_nested_shunt(error, s.skip(offset)),
    ensures
        is_nested_shunt(error, s),
{
    let inner = s.skip(offset);
    let at = choose|at: int|
        0 <= at < inner.len() && inner[at] == '|' && error.fault().input == #[trigger] inner.skip(at)
            && spec_shunt(inner.skip(at + 1)) is Ok;
    assert(inner.skip(at + 1) =~= s.skip(offset + at + 1));
    assert(error.fault().input == s.skip(offset + at));
}

/// Elements and the groups of them never fail for good.
pub proof fn lemma_sub_circuit_fails_softly(s: Seq<char>)
    ensures
        spec_sub_circuit(s) matches Err(error) ==> !error.is_hard(),
        spec_parallel(s) matches Err(error) ==> !error.is_hard(),
        spec_series(s) matches Err(error) ==> !error.is_hard(),
    decreases s.len(),
{
    if s.len() > 0 {
        lemma_sub_circuit_fails_softly(s.skip(1));
    }
}

/// What a shunt link holds fails for good only at a shunt link in a
/// sub-chain.
pub proof fn lemma_shunt_violation(s: Seq<char>)
    ensures
        spec_shunt(s) matches Err(error) ==> (error.is_hard() ==> is_nested_shunt(error, s)),
    decreases s.len(), 1nat,
{
    lemma_sub_circuit_fails_softly(s);
    if s.len() > 1 && s[0] == '(' && (s[1] == '-' || s[1] == '|') {
        lemma_sub_chain_violation(s.skip(1));
        if let Err(error) = spec_sub_chain(s.skip(1)) {
            if error.is_hard() {
                lemma_nested_shunt_from(error, s, 1);
            }
        }
    }
}

/// A sub-chain fails for good only at a shunt link in a sub-chain.
pub proof fn lemma_sub_chain_violation(s: Seq<char>)
    ensures
        spec_sub_chain(s) matches Err(error) ==> (error.is_hard() ==> is_nested_shunt(error, s)),
    decreases s.len(), 0nat,
{
    if s.len() > 0 && s[0] == '|' && spec_shunt(s.skip(1)) is Ok {
        assert(s.skip(0) =~= s);
    } else if s.len() > 0 && s[0] == '-' {
        lemma_sub_circuit_fails_softly(s.skip(1));
        if let Ok((m, first)) = spec_sub_circuit(s.skip(1)) {
            if 1 + m < s.len() && (s[1 + m as int] == '-' || s[1 + m as int] == '|') {
                lemma_sub_chain_violation(s.skip(1 + m as int));
                if let Err(error) = spec_sub_chain(s.skip(1 + m as int)) {
                    if error.is_hard() {
                        lemma_nested_shunt_from(error, s, 1 + m as int);
                    }
                }
            }
        }
    }
}

/// A twoport fails for good only at a shunt link in a sub-chain.
pub proof fn lemma_twoport_violation(s: Seq<char>)
    ensures
        spec_twoport(s) matches Err(error) ==> (error.is_hard() ==> is_nested_shunt(error, s)),
    decreases s.len(),
{
    if s.len() > 0 && (s[0] == '-' || s[0] == '|') {
        lemma_sub_circuit_fails_softly(s.skip(1));
        lemma_shunt_violation(s.skip(1));
        match spec_twoport_link(s) {
            Ok((n, link)) => {
                if n < s.len() && (s[n as int] == '-' || s[n as int] == '|') {
                    lemma_twoport_violation(s.skip(n as int));
                    if let Err(error) = spec_twoport(s.skip(n as int)) {
                        if error.is_hard() {
                            lemma_nested_shunt_from(error, s, n as int);
                        }
                    }
                }
            },
            Err(error) => {
                if error.is_hard() {
                    lemma_nested_shunt_from(error, s, 1);
                }
            },
        }
    }
}

/// An element that ends before a character that is not alphanumeric, or
/// at the end of the text before such a character of `more`, is read the
/// same with `more` appended.
pub proof fn lemma_element_of_extension(s: Seq<char>, more: Seq<char>)
    requires
        spec_element(s) matches Ok((n, _)) && (if n < s.len() {
            !is_alphanumeric(s[n as int])
        } else {
            more.len() == 0 || !is_alphanumeric(more[0])
        }),
    ensures
        spec_element(s + more) == spec_element(s),
{
    let n = spec_element(s)->Ok_0.0 as int;
    assert((s + more).skip(1) =~= s.skip(1) + more);
    if s[0] != 'O' {
        lemma_alphanumeric_run_within(s.skip(1));
        if n < s.len() {
            lemma_alphanumeric_run_stops(s.skip(1));
        }
        lemma_alphanumeric_run_of_extension(s.skip(1), more);
        assert((s + more).subrange(1, n) =~= s.subrange(1, n));
    }
}

/// A run that ends before the end of the text ends before a character that
/// is not alphanumeric, and conversely.
pub proof fn lemma_alphanumeric_run_stops(text: Seq<char>)
    ensures
        alphanumeric_run(text) <= text.len(),
        alphanumeric_run(text) < text.len() ==> !is_alphanumeric(text[alphanumeric_run(text) as int]),
    decreases text.len(),
{
    if text.len() > 0 && is_alphanumeric(text[0]) {
        lemma_alphanumeric_run_stops(text.skip(1));
    }
}

/// A sub-circuit that ends before a character that is not alphanumeric, or
/// at the end of the text before such a character of `more`, is read the
/// same with `more` appended.
pub proof fn lemma_sub_circuit_of_extension(s: Seq<char>, more: Seq<char>)
    requires
        spec_sub_circuit(s) matches Ok((n, _)) && (if n < s.len() {
            !is_alphanumeric(s[n as int])
        } else {
            more.len() == 0 || !is_alphanumeric(more[0])
        }),
    ensures
        spec_sub_circuit(s + more) == spec_sub_circuit(s),
    decreases s.len(), 0nat,
{
    if s.len() > 0 && s[0] == '(' {
        assert((s + more).skip(1) =~= s.skip(1) + more);
        lemma_series_of_extension(s.skip(1), more);
    } else {
        lemma_element_of_extension(s, more);
    }
}

/// A parallel arrangement that ends before a character that is neither
/// alphanumeric nor `|` is read the same with `more` appended.
pub proof fn lemma_parallel_of_extension(s: Seq<char>, more: Seq<char>)
    requires
        spec_parallel(s) matches Ok((n, _)) && n < s.len() && !is_alphanumeric(s[n as int]) && s[n as int]
            != '|',
    ensures
        spec_parallel(s + more) == spec_parallel(s),
    decreases s.len(), 1nat,
{
    let n = spec_sub_circuit(s)->Ok_0.0 as int;
    lemma_consumed_within(s);
    if n + 1 < s.len() && s[n] == '|' && s[n + 1] == '|' {
        lemma_sub_circuit_of_extension(s, more);
        assert((s + more).skip(n + 2) =~= s.skip(n + 2) + more);
        lemma_parallel_of_extension(s.skip(n + 2), more);
    } else {
        lemma_sub_circuit_of_extension(s, more);
    }
}

/// A series arrangement that ends before a character that is none of
/// alphanumeric, `|` and `+` is read the same with `more` appended.
pub proof fn lemma_series_of_extension(s: Seq<char>, more: Seq<char>)
    requires
        spec_series(s) matches Ok((n, _)) && n < s.len() && !is_alphanumeric(s[n as int]) && s[n as int]
            != '|' && s[n as int] != '+',
    ensures
        spec_series(s + more) == spec_series(s),
    decreases s.len(), 2nat,
{
    let n = spec_parallel(s)->Ok_0.0 as int;
    lemma_consumed_within(s);
    if n < s.len() && s[n] == '+' {
        lemma_parallel_of_extension(s, more);
        assert((s + more).skip(n + 1) =~= s.skip(n + 1) + more);
        lemma_series_of_extension(s.skip(n + 1), more);
    } else {
        lemma_parallel_of_extension(s, more);
    }
}

/// The grammar takes no more characters than the text has.
pub proof fn lemma_consumed_within(s: Seq<char>)
    ensures
        spec_element(s) matches Ok((n, _)) ==> 0 < n <= s.len(),
        spec_sub_circuit(s) matches Ok((n, _)) ==> 0 < n <= s.len(),
        spec_parallel(s) matches Ok((n, _)) ==> 0 < n <= s.len(),
        spec_series(s) matches Ok((n, _)) ==> 0 < n <= s.len(),
    decreases s.len(),
{
    if s.len() > 0 {
        lemma_alphanumeric_run_within(s.skip(1));
        lemma_consumed_within(s.skip(1));
        if let Ok((n, _)) = spec_sub_circuit(s) {
            if n + 1 < s.len() {
                lemma_consumed_within(s.skip(n as int + 2));
            }
        }
        if let Ok((n, _)) = spec_parallel(s) {
            if n < s.len() {
                lemma_consumed_within(s.skip(n as int + 1));
            }
        }
    }
}

/// A sub-circuit in parentheses of its own is the sub-circuit: where `text`
/// is one sub-circuit from end to end, `(text)` is read as the same tree.
pub proof fn lemma_group_of_one_is_the_one(text: Seq<char>)
    requires
        spec_sub_circuit(text) matches Ok((n, _)) && n == text.len(),
    ensures
        spec_sub_circuit(seq!['('] + text + seq![')']) == Ok::<(nat, SubCircuitView), ParseErrorView>(
            (text.len() + 2, spec_sub_circuit(text)->Ok_0.1),
        ),
{
    let inner = text + seq![')'];
    let whole = seq!['('] + text + seq![')'];
    assert(whole.skip(1) =~= inner);
    lemma_sub_circuit_of_extension(text, seq![')']);
}

/// Parses one element.
pub fn element<'a>(input: &'a str) -> (parsed: Result<(&'a str, Element<'a>), ParseError<'a>>)
    ensures
        agrees(parsed, input@, spec_element(input@)),
{
    proof {
        reveal_strlit("R");
        reveal_strlit("C");
        reveal_strlit("V");
        reveal_strlit("L");
        reveal_strlit("Z");
        reveal_strlit("I");
        reveal_strlit("O");
        assert("R"@ =~= seq!['R']);
        assert("C"@ =~= seq!['C']);
        assert("V"@ =~= seq!['V']);
        assert("L"@ =~= seq!['L']);
        assert("Z"@ =~= seq!['Z']);
        assert("I"@ =~= seq!['I']);
        assert("O"@ =~= seq!['O']);
    }
    if let Some((rest, id)) = identified("R", 'R', input) {
        return Ok((rest, Element::R(id)));
    }
    if let Some((rest, id)) = identified("C", 'C', input) {
        return Ok((rest, Element::C(id)));
    }
    if let Some((rest, id)) = identified("V", 'V', input) {
        return Ok((rest, Element::V(id)));
    }
    if let Some((rest, id)) = identified("L", 'L', input) {
        return Ok((rest, Element::L(id)));
    }
    if let Some((rest, id)) = identified("Z", 'Z', input) {
        return Ok((rest, Element::Z(id)));
    }
    if let Some((rest, id)) = identified("I", 'I', input) {
        return Ok((rest, Element::I(id)));
    }
    if let Some(rest) = leading("O", 'O', input) {
        return Ok((rest, Element::Open));
    }
    Err(ParseError::Syntax(Fault { input, reason: Reason::ExpectedElement }))
}

/// Parses one sub-circuit: an element, or a group in parentheses.
pub fn sub_circuit<'a>(input: &'a str) -> (parsed: Result<(&'a str, SubCircuit<'a>), ParseError<'a>>)
    ensures
        agrees(parsed, input@, spec_sub_circuit(input@)),
        parsed matches Ok((_, circuit)) ==> circuit@.is_minimal(),
    decreases input@.len(), 0nat,
{
    proof {
        lemma_sub_circuit_is_minimal(input@);
        reveal_strlit("(");
        reveal_strlit(")");
        assert("("@ =~= seq!['(']);
        assert(")"@ =~= seq![')']);
    }
    match leading("(", '(', input) {
        Some(inner) => match sub_circuit_series(inner) {
            Ok((rest, group)) => {
                let ghost n = spec_series(input@.skip(1))->Ok_0.0 as int;
                proof {
                    lemma_skip_skip(input@, 1, n);
                }
                match leading(")", ')', rest) {
                    Some(rest) => {
                        proof {
                            lemma_skip_skip(input@, 1 + n, 1);
                        }
                        Ok((rest, SubCircuit::from(group)))
                    },
                    None => Err(
                        ParseError::Syntax(Fault { input: rest, reason: Reason::ExpectedClosingParen }),
                    ),
                }
            },
            Err(error) => Err(error),
        },
        None => match element(input) {
            Ok((rest, element)) => Ok((rest, SubCircuit::Element(element))),
            Err(_) => Err(
                ParseError::Syntax(Fault { input, reason: Reason::ExpectedElementOrGroup }),
            ),
        },
    }
}

/// Parses a parallel arrangement: sub-circuits joined by `||`.
pub fn sub_circuit_parallel<'a>(input: &'a str) -> (parsed: Result<
    (&'a str, SubCircuitGroup<'a>),
    ParseError<'a>,
>)
    ensures
        agrees(parsed, input@, spec_parallel(input@)),
        parsed matches Ok((_, group)) ==> group@.is_minimal(),
    decreases input@.len(), 1nat,
{
    proof {
        lemma_parallel_is_minimal(input@);
        reveal_strlit("||");
        assert("||"@ =~= seq!['|', '|']);
    }
    match sub_circuit(input) {
        Ok((rest, top)) => {
            let ghost n = spec_sub_circuit(input@)->Ok_0.0 as int;
            proof {
                crate::token::lemma_starts_with_two(rest@, '|', '|');
            }
            match crate::token::tag("||", rest) {
                Some((behind, _)) => {
                    proof {
                        lemma_skip_skip(input@, n, 2);
                    }
                    match sub_circuit_parallel(behind) {
                        Ok((rest, bottom)) => {
                            proof {
                                let m = spec_parallel(input@.skip(n + 2))->Ok_0.0 as int;
                                lemma_skip_skip(input@, n + 2, m);
                            }
                            Ok((rest, SubCircuitGroup::Parallel(top, SubCircuit::from(bottom))))
                        },
                        Err(_) => Ok((rest, SubCircuitGroup::Single(top))),
                    }
                },
                None => Ok((rest, SubCircuitGroup::Single(top))),
            }
        },
        Err(error) => Err(error),
    }
}

/// Parses a series arrangement: parallel arrangements joined by `+`.
pub fn sub_circuit_series<'a>(input: &'a str) -> (parsed: Result<
    (&'a str, SubCircuitGroup<'a>),
    ParseError<'a>,
>)
    ensures
        agrees(parsed, input@, spec_series(input@)),
        parsed matches Ok((_, group)) ==> group@.is_minimal(),
    decreases input@.len(), 2nat,
{
    proof {
        lemma_series_is_minimal(input@);
        reveal_strlit("+");
        assert("+"@ =~= seq!['+']);
    }
    match sub_circuit_parallel(input) {
        Ok((rest, left)) => {
            let ghost n = spec_parallel(input@)->Ok_0.0 as int;
            match leading("+", '+', rest) {
                Some(behind) => {
                    proof {
                        lemma_skip_skip(input@, n, 1);
                    }
                    match sub_circuit_series(behind) {
                        Ok((rest, right)) => {
                            proof {
                                let m = spec_series(input@.skip(n + 1))->Ok_0.0 as int;
                                lemma_skip_skip(input@, n + 1, m);
                            }
                            Ok(
                                (
                                    rest,
                                    SubCircuitGroup::Series(
                                        SubCircuit::from(left),
                                        SubCircuit::from(right),
                                    ),
                                ),
                            )
                        },
                        Err(_) => Ok((rest, left)),
                    }
                },
                None => Ok((rest, left)),
            }
        },
        Err(error) => Err(error),
    }
}

/// Parses what a shunt link holds: a sub-chain in parentheses, or a
/// sub-circuit.
fn shunt<'a>(input: &'a str) -> (parsed: Result<(&'a str, SubCircuit<'a>), ParseError<'a>>)
    ensures
        agrees(parsed, input@, spec_shunt(input@)),
        parsed matches Ok((_, circuit)) ==> circuit@.is_minimal(),
    decreases input@.len(), 1nat,
{
    proof {
        reveal_strlit("(");
        reveal_strlit(")");
        reveal_strlit("-");
        reveal_strlit("|");
        assert("("@ =~= seq!['(']);
        assert(")"@ =~= seq![')']);
        assert("-"@ =~= seq!['-']);
        assert("|"@ =~= seq!['|']);
        lemma_shunt_is_minimal(input@);
    }
    if let Some(inner) = leading("(", '(', input) {
        if leading("-", '-', inner).is_some() || leading("|", '|', inner).is_some() {
            return match sub_chain(inner) {
                Ok((rest, circuit)) => {
                    let ghost n = spec_sub_chain(input@.skip(1))->Ok_0.0 as int;
                    proof {
                        lemma_skip_skip(input@, 1, n);
                    }
                    match leading(")", ')', rest) {
                        Some(rest) => {
                            proof {
                                lemma_skip_skip(input@, 1 + n, 1);
                            }
                            Ok((rest, circuit))
                        },
                        None => Err(
                            ParseError::Syntax(Fault { input: rest, reason: Reason::ExpectedClosingParen }),
                        ),
                    }
                },
                Err(error) => Err(error),
            };
        }
    }
    sub_circuit(input)
}

/// Parses a sub-chain: one series link or more, which amount to their
/// series arrangement.
fn sub_chain<'a>(input: &'a str) -> (parsed: Result<(&'a str, SubCircuit<'a>), ParseError<'a>>)
    ensures
        agrees(parsed, input@, spec_sub_chain(input@)),
        parsed matches Ok((_, circuit)) ==> circuit@.is_minimal(),
    decreases input@.len(), 0nat,
{
    proof {
        reveal_strlit("-");
        reveal_strlit("|");
        assert("-"@ =~= seq!['-']);
        assert("|"@ =~= seq!['|']);
        lemma_sub_chain_is_minimal(input@);
    }
    if let Some(behind) = leading("|", '|', input) {
        if shunt(behind).is_ok() {
            return Err(ParseError::Violation(Fault { input, reason: Reason::NestedShunt }));
        }
    }
    let behind = match leading("-", '-', input) {
        Some(behind) => behind,
        None => return Err(ParseError::Syntax(Fault { input, reason: Reason::ExpectedLink })),
    };
    let (rest, first) = match sub_circuit(behind) {
        Ok(found) => found,
        Err(error) => return Err(error),
    };
    let ghost m = spec_sub_circuit(input@.skip(1))->Ok_0.0 as int;
    proof {
        lemma_skip_skip(input@, 1, m);
    }
    match sub_chain(rest) {
        Ok((rest, others)) => {
            proof {
                lemma_skip_skip(input@, 1 + m, spec_sub_chain(input@.skip(1 + m))->Ok_0.0 as int);
            }
            Ok((rest, SubCircuit::Group(Box::new(SubCircuitGroup::Series(first, others)))))
        },
        Err(error) => match error {
            ParseError::Violation(_) => Err(error),
            ParseError::Syntax(_) => Ok((rest, first)),
        },
    }
}

/// Parses one link of a twoport.
pub fn twoport_link<'a>(input: &'a str) -> (parsed: Result<(&'a str, TwoportLink<'a>), ParseError<'a>>)
    ensures
        agrees(parsed, input@, spec_twoport_link(input@)),
        parsed matches Ok((_, link)) ==> link@.is_minimal(),
{
    proof {
        reveal_strlit("-");
        reveal_strlit("|");
        assert("-"@ =~= seq!['-']);
        assert("|"@ =~= seq!['|']);
    }
    if let Some(behind) = leading("-", '-', input) {
        return match sub_circuit(behind) {
            Ok((rest, circuit)) => {
                proof {
                    lemma_skip_skip(input@, 1, spec_sub_circuit(input@.skip(1))->Ok_0.0 as int);
                }
                Ok((rest, TwoportLink::Series(circuit)))
            },
            Err(error) => Err(error),
        };
    }
    if let Some(behind) = leading("|", '|', input) {
        return match shunt(behind) {
            Ok((rest, circuit)) => {
                proof {
                    lemma_skip_skip(input@, 1, spec_shunt(input@.skip(1))->Ok_0.0 as int);
                }
                Ok((rest, TwoportLink::Shunt(circuit)))
            },
            Err(error) => Err(error),
        };
    }
    Err(ParseError::Syntax(Fault { input, reason: Reason::ExpectedLink }))
}

/// Parses a twoport: one link or more.
pub fn twoport<'a>(input: &'a str) -> (parsed: Result<(&'a str, Twoport<'a>), ParseError<'a>>)
    ensures
        agrees(parsed, input@, spec_twoport(input@)),
        parsed matches Ok((_, twoport)) ==> links_are_minimal(twoport@),
{
    proof {
        lemma_twoport_is_minimal(input@);
    }
    let (first_rest, first) = match twoport_link(input) {
        Ok(found) => found,
        Err(error) => return Err(error),
    };
    let mut rest = first_rest;
    let mut twoport = Twoport { links: Vec::new() };
    twoport.links.push(first);
    let ghost mut start: int = 0;
    assert(input@.skip(0) =~= input@);
    loop
        invariant_except_break
            0 <= start <= input@.len(),
            twoport.links@.len() > 0,
            spec_twoport_link(input@.skip(start)) matches Ok((n, link)) && {
                &&& start + n <= input@.len()
                &&& rest@ == input@.skip(start + n)
                &&& link == twoport@.last()
            },
            !(spec_twoport(input@.skip(start)) matches Err(error) && !error.is_hard()),
            spec_twoport(input@) == continued(twoport@.drop_last(), start, spec_twoport(input@.skip(start))),
        ensures
            spec_twoport(input@) is Ok,
            agrees(Ok::<(&'a str, Twoport<'a>), ParseError<'a>>((rest, twoport)), input@, spec_twoport(input@)),
        decreases rest@.len(),
    {
        let ghost here = input@.skip(start);
        let ghost n = spec_twoport_link(here)->Ok_0.0 as int;
        let ghost before = twoport@;
        proof {
            lemma_skip_skip(input@, start, n);
        }
        match twoport_link(rest) {
            Ok((behind, link)) => {
                proof {
                    let k = spec_twoport_link(rest@)->Ok_0.0 as int;
                    lemma_skip_skip(input@, start + n, k);
                }
                twoport.links.push(link);
                rest = behind;
                proof {
                    assert(twoport@.drop_last() =~= before);
                    if spec_twoport(here.skip(n)) is Ok {
                        let more = spec_twoport(here.skip(n))->Ok_0.1;
                        assert(before.drop_last() + (seq![before.last()] + more) =~= before + more);
                    }
                    start = start + n;
                }
            },
            Err(error) => {
                proof {
                    assert(twoport@.drop_last() + seq![twoport@.last()] =~= twoport@);
                }
                match error {
                    ParseError::Violation(_) => {
                        return Err(error);
                    },
                    ParseError::Syntax(_) => {
                        break ;
                    },
                }
            },
        }
    }
    Ok((rest, twoport))
}

/// Parses a document: a twoport or a two-ended circuit.
pub fn document<'a>(input: &'a str) -> (parsed: Result<(&'a str, Document<'a>), ParseError<'a>>)
    ensures
        agrees(parsed, input@, spec_document(input@)),
        parsed matches Ok((_, document)) ==> document@.is_minimal(),
{
    proof {
        reveal_strlit("-");
        reveal_strlit("|");
        assert("-"@ =~= seq!['-']);
        assert("|"@ =~= seq!['|']);
    }
    if leading("|", '|', input).is_some() || leading("-", '-', input).is_some() {
        match twoport(input) {
            Ok((rest, twoport)) => Ok((rest, Document::Twoport(twoport))),
            Err(error) => Err(error),
        }
    } else {
        match sub_circuit(input) {
            Ok((rest, circuit)) => Ok((rest, Document::Circuit(circuit))),
            Err(error) => Err(error),
        }
    }
}

} // verus!
