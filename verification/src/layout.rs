//! Bottom-up layout: the natural size of every node of a circuit tree.

use vstd::prelude::*;
use crate::circuit;
use crate::twoport;

verus! {

/// A width and a height over the integers: what a `Size` stands for.
pub struct Extent {
    pub width: int,
    pub height: int,
}

/// A point of the plane over the integers: what a `Position` stands for.
pub struct Point {
    pub x: int,
    pub y: int,
}

/// A width and a height, in layout units.
#[derive(Debug, Copy, Clone, PartialEq, Eq, Structural)]
pub struct Size(pub i32, pub i32);

/// A point of the drawing plane.
#[derive(Debug, Copy, Clone, PartialEq, Eq, Structural)]
pub struct Position(pub i32, pub i32);

impl View for Size {
    type V = Extent;

    open spec fn view(&self) -> Extent {
        Extent { width: self.0 as int, height: self.1 as int }
    }
}

impl View for Position {
    type V = Point;

    open spec fn view(&self) -> Point {
        Point { x: self.0 as int, y: self.1 as int }
    }
}

impl Extent {
    /// Both dimensions can be held by a `Size`.
    pub open spec fn fits(self) -> bool {
        &&& i32::MIN <= self.width <= i32::MAX
        &&& i32::MIN <= self.height <= i32::MAX
    }

    /// The same box with its axes exchanged.
    pub open spec fn swapped(self) -> Extent {
        Extent { width: self.height, height: self.width }
    }
}

impl Point {
    /// Both coordinates can be held by a `Position`.
    pub open spec fn fits(self) -> bool {
        &&& i32::MIN <= self.x <= i32::MAX
        &&& i32::MIN <= self.y <= i32::MAX
    }
}

impl Position {
    pub fn zero() -> (p: Self)
        ensures
            p == Position(0, 0),
    {
        Self(0, 0)
    }
}

impl Default for Position {
    fn default() -> (p: Self)
        ensures
            p == Position(0, 0),
    {
        Position(0, 0)
    }
}

/// The width of the bounding box of every element, whatever its kind.
pub const ELEMENT_WIDTH: i32 = 200;

/// The height of the bounding box of every element.
pub const ELEMENT_HEIGHT: i32 = 60;

/// The bounding box that every element occupies.
pub fn element_size() -> (size: Size)
    ensures
        size == Size(ELEMENT_WIDTH, ELEMENT_HEIGHT),
{
    Size(ELEMENT_WIDTH, ELEMENT_HEIGHT)
}

/// The larger of two integers.
pub open spec fn larger(a: int, b: int) -> int {
    if a >= b { a } else { b }
}

/// Something that has a natural size.
pub trait Layout {
    /// The size the node would occupy with no outside constraint.
    open spec fn natural_size(&self) -> Extent {
        arbitrary()
    }

    /// Computes the natural size, where a `Size` can hold it.
    fn layout_size(&self) -> (size: Size)
        requires
            self.natural_size().fits(),
        ensures
            size@ == self.natural_size(),
    ;

    /// Computes the natural size, and tells where no `Size` can hold it.
    fn checked_layout_size(&self) -> (size: Option<Size>)
        ensures
            match size {
                Some(size) => self.natural_size().fits() && size@ == self.natural_size(),
                None => !self.natural_size().fits(),
            },
    ;
}

impl Layout for circuit::Element<'_> {
    open spec fn natural_size(&self) -> Extent {
        Extent { width: ELEMENT_WIDTH as int, height: ELEMENT_HEIGHT as int }
    }

    fn layout_size(&self) -> (size: Size) {
        element_size()
    }

    fn checked_layout_size(&self) -> (size: Option<Size>) {
        Some(element_size())
    }
}

impl Layout for circuit::SubCircuitGroup<'_> {
    open spec fn natural_size(&self) -> Extent
        decreases self,
    {
        match self {
            circuit::SubCircuitGroup::Single(circuit) => circuit.natural_size(),
            circuit::SubCircuitGroup::Series(left, right) => Extent {
                width: left.natural_size().width + right.natural_size().width,
                height: larger(left.natural_size().height, right.natural_size().height),
            },
            circuit::SubCircuitGroup::Parallel(top, bottom) => Extent {
                width: larger(top.natural_size().width, bottom.natural_size().width),
                height: top.natural_size().height + bottom.natural_size().height,
            },
        }
    }

    fn layout_size(&self) -> (size: Size)
        decreases self,
    {
        proof {
            lemma_group_children_fit(self);
        }
        match self {
            circuit::SubCircuitGroup::Single(circuit) => circuit.layout_size(),
            circuit::SubCircuitGroup::Series(left, right) => {
                let left_size = left.layout_size();
                let right_size = right.layout_size();
                Size(left_size.0 + right_size.0, greater(left_size.1, right_size.1))
            },
            circuit::SubCircuitGroup::Parallel(top, bottom) => {
                let top_size = top.layout_size();
                let bottom_size = bottom.layout_size();
                Size(greater(top_size.0, bottom_size.0), top_size.1 + bottom_size.1)
            },
        }
    }

    fn checked_layout_size(&self) -> (size: Option<Size>)
        decreases self,
    {
        proof {
            lemma_group_children_fit(self);
        }
        match self {
            circuit::SubCircuitGroup::Single(circuit) => circuit.checked_layout_size(),
            circuit::SubCircuitGroup::Series(left, right) => {
                match (left.checked_layout_size(), right.checked_layout_size()) {
                    (Some(left_size), Some(right_size)) => match left_size.0.checked_add(right_size.0) {
                        Some(width) => Some(Size(width, greater(left_size.1, right_size.1))),
                        None => None,
                    },
                    _ => None,
                }
            },
            circuit::SubCircuitGroup::Parallel(top, bottom) => {
                match (top.checked_layout_size(), bottom.checked_layout_size()) {
                    (Some(top_size), Some(bottom_size)) => match top_size.1.checked_add(bottom_size.1) {
                        Some(height) => Some(Size(greater(top_size.0, bottom_size.0), height)),
                        None => None,
                    },
                    _ => None,
                }
            },
        }
    }
}

impl Layout for circuit::SubCircuit<'_> {
    open spec fn natural_size(&self) -> Extent
        decreases self,
    {
        match self {
            circuit::SubCircuit::Element(element) => element.natural_size(),
            circuit::SubCircuit::Group(group) => group.natural_size(),
        }
    }

    fn layout_size(&self) -> (size: Size)
        decreases self,
    {
        match self {
            circuit::SubCircuit::Element(element) => element.layout_size(),
            circuit::SubCircuit::Group(group) => group.layout_size(),
        }
    }

    fn checked_layout_size(&self) -> (size: Option<Size>)
        decreases self,
    {
        match self {
            circuit::SubCircuit::Element(element) => element.checked_layout_size(),
            circuit::SubCircuit::Group(group) => group.checked_layout_size(),
        }
    }
}

/// A series link keeps the box of its sub-circuit; a shunt link runs
/// vertically, so its sub-circuit's box is turned by a quarter.
impl Layout for circuit::TwoportLink<'_> {
    open spec fn natural_size(&self) -> Extent {
        match self {
            circuit::TwoportLink::Series(circuit) => circuit.natural_size(),
            circuit::TwoportLink::Shunt(circuit) => circuit.natural_size().swapped(),
        }
    }

    fn layout_size(&self) -> (size: Size) {
        match self {
            circuit::TwoportLink::Series(circuit) => circuit.layout_size(),
            circuit::TwoportLink::Shunt(circuit) => {
                let upright = circuit.layout_size();
                Size(upright.1, upright.0)
            },
        }
    }

    fn checked_layout_size(&self) -> (size: Option<Size>) {
        match self {
            circuit::TwoportLink::Series(circuit) => circuit.checked_layout_size(),
            circuit::TwoportLink::Shunt(circuit) => match circuit.checked_layout_size() {
                Some(upright) => Some(Size(upright.1, upright.0)),
                None => None,
            },
        }
    }
}

/// The box of the first `count` links of a chain laid side by side: the
/// widths add up, the tallest link gives the height.
pub open spec fn links_size(links: Seq<circuit::TwoportLink<'_>>, count: int) -> Extent
    decreases count,
{
    if count <= 0 {
        Extent { width: 0, height: 0 }
    } else {
        let before = links_size(links, count - 1);
        let link = links[count - 1].natural_size();
        Extent { width: before.width + link.width, height: larger(before.height, link.height) }
    }
}

impl Layout for circuit::Twoport<'_> {
    open spec fn natural_size(&self) -> Extent {
        links_size(self.links@, self.links@.len() as int)
    }

    fn layout_size(&self) -> (size: Size) {
        let mut width: i32 = 0;
        let mut height: i32 = 0;
        let mut i: usize = 0;
        while i < self.links.len()
            invariant
                0 <= i <= self.links@.len(),
                self.natural_size().fits(),
                Size(width, height)@ == links_size(self.links@, i as int),
            decreases self.links@.len() - i,
        {
            proof {
                lemma_links_size_grows(self.links@, i as int, i as int + 1);
                lemma_links_size_grows(self.links@, i as int + 1, self.links@.len() as int);
                lemma_link_size_at_least_element(&self.links@[i as int]);
            }
            let link = self.links[i].layout_size();
            width = width + link.0;
            height = greater(height, link.1);
            i = i + 1;
        }
        Size(width, height)
    }

    fn checked_layout_size(&self) -> (size: Option<Size>) {
        let mut width: i32 = 0;
        let mut height: i32 = 0;
        let mut i: usize = 0;
        while i < self.links.len()
            invariant
                0 <= i <= self.links@.len(),
                Size(width, height)@ == links_size(self.links@, i as int),
            decreases self.links@.len() - i,
        {
            proof {
                lemma_links_size_grows(self.links@, i as int, i as int + 1);
                lemma_links_size_grows(self.links@, i as int + 1, self.links@.len() as int);
                lemma_link_size_at_least_element(&self.links@[i as int]);
            }
            let link = match self.links[i].checked_layout_size() {
                Some(link) => link,
                None => return None,
            };
            width = match width.checked_add(link.0) {
                Some(width) => width,
                None => return None,
            };
            height = greater(height, link.1);
            i = i + 1;
        }
        Some(Size(width, height))
    }
}

impl Layout for circuit::Document<'_> {
    open spec fn natural_size(&self) -> Extent {
        match self {
            circuit::Document::Circuit(circuit) => circuit.natural_size(),
            circuit::Document::Twoport(twoport) => twoport.natural_size(),
        }
    }

    fn layout_size(&self) -> (size: Size) {
        match self {
            circuit::Document::Circuit(circuit) => circuit.layout_size(),
            circuit::Document::Twoport(twoport) => twoport.layout_size(),
        }
    }

    fn checked_layout_size(&self) -> (size: Option<Size>) {
        match self {
            circuit::Document::Circuit(circuit) => circuit.checked_layout_size(),
            circuit::Document::Twoport(twoport) => twoport.checked_layout_size(),
        }
    }
}

/// The box of the first `count` nodes of a chain laid side by side: the
/// widths add up, the tallest node gives the height.
pub open spec fn nodes_size(nodes: Seq<twoport::ChainNode<'_>>, count: int) -> Extent
    decreases nodes, count,
{
    if 0 < count <= nodes.len() {
        let before = nodes_size(nodes, count - 1);
        let node = nodes[count - 1].natural_size();
        Extent { width: before.width + node.width, height: larger(before.height, node.height) }
    } else {
        Extent { width: 0, height: 0 }
    }
}

/// A lumped element and an open circuit take the box of an element; a
/// sub-chain takes the box of its nodes laid side by side along its own
/// axis.
impl Layout for twoport::Element<'_> {
    open spec fn natural_size(&self) -> Extent
        decreases self, 0int,
    {
        match self {
            twoport::Element::Sub(chain) => nodes_size(chain.0@, chain.0@.len() as int),
            _ => Extent { width: ELEMENT_WIDTH as int, height: ELEMENT_HEIGHT as int },
        }
    }

    fn layout_size(&self) -> (size: Size)
        decreases self,
    {
        match self {
            twoport::Element::Sub(chain) => chain.layout_size(),
            _ => element_size(),
        }
    }

    fn checked_layout_size(&self) -> (size: Option<Size>)
        decreases self,
    {
        match self {
            twoport::Element::Sub(chain) => chain.checked_layout_size(),
            _ => Some(element_size()),
        }
    }
}

/// A series node keeps the box of what it holds; a shunt node runs
/// vertically, so the box is turned by a quarter.
impl Layout for twoport::ChainNode<'_> {
    open spec fn natural_size(&self) -> Extent
        decreases self, 0int,
    {
        match self {
            twoport::ChainNode::Series(element) => element.natural_size(),
            twoport::ChainNode::Shunt(element) => element.natural_size().swapped(),
        }
    }

    fn layout_size(&self) -> (size: Size)
        decreases self,
    {
        match self {
            twoport::ChainNode::Series(element) => element.layout_size(),
            twoport::ChainNode::Shunt(element) => {
                let upright = element.layout_size();
                Size(upright.1, upright.0)
            },
        }
    }

    fn checked_layout_size(&self) -> (size: Option<Size>)
        decreases self,
    {
        match self {
            twoport::ChainNode::Series(element) => element.checked_layout_size(),
            twoport::ChainNode::Shunt(element) => match element.checked_layout_size() {
                Some(upright) => Some(Size(upright.1, upright.0)),
                None => None,
            },
        }
    }
}

impl Layout for twoport::Chain<'_> {
    open spec fn natural_size(&self) -> Extent {
        nodes_size(self.0@, self.0@.len() as int)
    }

    fn layout_size(&self) -> (size: Size)
        decreases self,
    {
        let mut width: i32 = 0;
        let mut height: i32 = 0;
        let mut i: usize = 0;
        while i < self.0.len()
            invariant
                0 <= i <= self.0@.len(),
                self.natural_size().fits(),
                Size(width, height)@ == nodes_size(self.0@, i as int),
            decreases self.0@.len() - i,
        {
            proof {
                lemma_nodes_size_grows(self.0@, i as int, i as int + 1);
                lemma_nodes_size_grows(self.0@, i as int + 1, self.0@.len() as int);
            }
            let node = self.0[i].layout_size();
            width = width + node.0;
            height = greater(height, node.1);
            i = i + 1;
        }
        Size(width, height)
    }

    fn checked_layout_size(&self) -> (size: Option<Size>)
        decreases self,
    {
        let mut width: i32 = 0;
        let mut height: i32 = 0;
        let mut i: usize = 0;
        while i < self.0.len()
            invariant
                0 <= i <= self.0@.len(),
                Size(width, height)@ == nodes_size(self.0@, i as int),
            decreases self.0@.len() - i,
        {
            proof {
                lemma_nodes_size_grows(self.0@, i as int, i as int + 1);
                lemma_nodes_size_grows(self.0@, i as int + 1, self.0@.len() as int);
            }
            let node = match self.0[i].checked_layout_size() {
                Some(node) => node,
                None => return None,
            };
            width = match width.checked_add(node.0) {
                Some(width) => width,
                None => return None,
            };
            height = greater(height, node.1);
            i = i + 1;
        }
        Some(Size(width, height))
    }
}

/// Nothing that a chain holds has a negative size.
pub proof fn lemma_element_size_is_not_negative(element: &twoport::Element)
    ensures
        element.natural_size().width >= 0,
        element.natural_size().height >= 0,
    decreases element, 0int,
{
    match element {
        twoport::Element::Sub(chain) => lemma_nodes_size_is_not_negative(
            chain.0@,
            chain.0@.len() as int,
        ),
        _ => {},
    }
}

/// No run of nodes has a negative size.
pub proof fn lemma_nodes_size_is_not_negative(nodes: Seq<twoport::ChainNode<'_>>, count: int)
    ensures
        nodes_size(nodes, count).width >= 0,
        nodes_size(nodes, count).height >= 0,
    decreases nodes, count,
{
    if 0 < count <= nodes.len() {
        lemma_nodes_size_is_not_negative(nodes, count - 1);
        lemma_node_size_is_not_negative(&nodes[count - 1]);
    }
}

/// No node has a negative size.
pub proof fn lemma_node_size_is_not_negative(node: &twoport::ChainNode)
    ensures
        node.natural_size().width >= 0,
        node.natural_size().height >= 0,
    decreases node, 0int,
{
    match node {
        twoport::ChainNode::Series(element) => lemma_element_size_is_not_negative(element),
        twoport::ChainNode::Shunt(element) => lemma_element_size_is_not_negative(element),
    }
}

/// A longer run of nodes is no smaller than a shorter one, and a node is no
/// larger than a run that holds it.
pub proof fn lemma_nodes_size_grows(nodes: Seq<twoport::ChainNode<'_>>, fewer: int, more: int)
    requires
        0 <= fewer <= more <= nodes.len(),
    ensures
        0 <= nodes_size(nodes, fewer).width <= nodes_size(nodes, more).width,
        0 <= nodes_size(nodes, fewer).height <= nodes_size(nodes, more).height,
        fewer < more ==> {
            &&& 0 <= nodes[more - 1].natural_size().width <= nodes_size(nodes, more).width
            &&& 0 <= nodes[more - 1].natural_size().height <= nodes_size(nodes, more).height
        },
    decreases more - fewer,
{
    lemma_nodes_size_is_not_negative(nodes, fewer);
    lemma_nodes_size_is_not_negative(nodes, more);
    if fewer < more {
        lemma_nodes_size_grows(nodes, fewer, more - 1);
        lemma_nodes_size_is_not_negative(nodes, more - 1);
        lemma_node_size_is_not_negative(&nodes[more - 1]);
    }
}

/// The natural size of a series group: the widths of the two add up, the
/// higher of the two gives the height.
pub proof fn lemma_series_size_is_additive(left: circuit::SubCircuit, right: circuit::SubCircuit)
    ensures
        circuit::SubCircuitGroup::Series(left, right).natural_size() == (Extent {
            width: left.natural_size().width + right.natural_size().width,
            height: larger(left.natural_size().height, right.natural_size().height),
        }),
        circuit::SubCircuit::Group(Box::new(circuit::SubCircuitGroup::Series(left, right))).natural_size()
            == circuit::SubCircuitGroup::Series(left, right).natural_size(),
{
}

/// The natural size of a parallel group: the heights of the two add up, the
/// wider of the two gives the width.
pub proof fn lemma_parallel_size_is_additive(top: circuit::SubCircuit, bottom: circuit::SubCircuit)
    ensures
        circuit::SubCircuitGroup::Parallel(top, bottom).natural_size() == (Extent {
            width: larger(top.natural_size().width, bottom.natural_size().width),
            height: top.natural_size().height + bottom.natural_size().height,
        }),
        circuit::SubCircuit::Group(Box::new(circuit::SubCircuitGroup::Parallel(top, bottom))).natural_size()
            == circuit::SubCircuitGroup::Parallel(top, bottom).natural_size(),
{
}

fn greater(a: i32, b: i32) -> (m: i32)
    ensures
        m == larger(a as int, b as int),
{
    if a >= b { a } else { b }
}

/// No sub-circuit is smaller than a single element.
pub proof fn lemma_circuit_size_at_least_element(circuit: &circuit::SubCircuit)
    ensures
        circuit.natural_size().width >= ELEMENT_WIDTH,
        circuit.natural_size().height >= ELEMENT_HEIGHT,
    decreases circuit,
{
    match circuit {
        circuit::SubCircuit::Element(_) => {},
        circuit::SubCircuit::Group(group) => lemma_group_size_at_least_element(group),
    }
}

/// No group is smaller than a single element.
pub proof fn lemma_group_size_at_least_element(group: &circuit::SubCircuitGroup)
    ensures
        group.natural_size().width >= ELEMENT_WIDTH,
        group.natural_size().height >= ELEMENT_HEIGHT,
    decreases group,
{
    match group {
        circuit::SubCircuitGroup::Single(circuit) => lemma_circuit_size_at_least_element(circuit),
        circuit::SubCircuitGroup::Series(left, right) => {
            lemma_circuit_size_at_least_element(left);
            lemma_circuit_size_at_least_element(right);
        },
        circuit::SubCircuitGroup::Parallel(top, bottom) => {
            lemma_circuit_size_at_least_element(top);
            lemma_circuit_size_at_least_element(bottom);
        },
    }
}

/// A link is at least as wide as an element is high, and as high.
pub proof fn lemma_link_size_at_least_element(link: &circuit::TwoportLink)
    ensures
        link.natural_size().width >= ELEMENT_HEIGHT,
        link.natural_size().height >= ELEMENT_HEIGHT,
{
    match link {
        circuit::TwoportLink::Series(circuit) => lemma_circuit_size_at_least_element(circuit),
        circuit::TwoportLink::Shunt(circuit) => lemma_circuit_size_at_least_element(circuit),
    }
}

/// A longer run of links is no smaller than a shorter one, and never
/// negative.
pub proof fn lemma_links_size_grows(links: Seq<circuit::TwoportLink<'_>>, fewer: int, more: int)
    requires
        0 <= fewer <= more <= links.len(),
    ensures
        0 <= links_size(links, fewer).width <= links_size(links, more).width,
        0 <= links_size(links, fewer).height <= links_size(links, more).height,
    decreases more,
{
    if fewer < more {
        lemma_links_size_grows(links, fewer, more - 1);
        lemma_link_size_at_least_element(&links[more - 1]);
    } else if more > 0 {
        lemma_links_size_grows(links, fewer - 1, more - 1);
        lemma_link_size_at_least_element(&links[more - 1]);
    }
}

/// The children of a group are no larger than the group, and not empty.
pub proof fn lemma_group_children_fit(group: &circuit::SubCircuitGroup)
    ensures
        match group {
            circuit::SubCircuitGroup::Single(circuit) => circuit.natural_size() == group.natural_size(),
            circuit::SubCircuitGroup::Series(a, b) | circuit::SubCircuitGroup::Parallel(a, b) => {
                &&& 0 < a.natural_size().width <= group.natural_size().width
                &&& 0 < a.natural_size().height <= group.natural_size().height
                &&& 0 < b.natural_size().width <= group.natural_size().width
                &&& 0 < b.natural_size().height <= group.natural_size().height
            },
        },
{
    match group {
        circuit::SubCircuitGroup::Single(_) => {},
        circuit::SubCircuitGroup::Series(a, b) | circuit::SubCircuitGroup::Parallel(a, b) => {
            lemma_circuit_size_at_least_element(a);
            lemma_circuit_size_at_least_element(b);
        },
    }
}

} // verus!
