//! Placement of plain chains.
//!
//! A chain is placed like a twoport: series nodes on the top rail, shunt
//! nodes turned by a quarter between the rails. A sub-chain stacks what its
//! nodes hold along its own axis, one cell to a node; in a shunt node the
//! cells so run down from the top rail.

use vstd::prelude::*;
use crate::draw::{
    half, halve, lemma_half_twice, proportion, share, Context, Draw, Drawer, Frame, Glyph,
    PrimitiveView,
};
use crate::layout::{lemma_nodes_size_grows, nodes_size, Extent, Layout, Size};
use crate::twoport::{Chain, ChainNode, Element};

verus! {

impl Element<'_> {
    /// The symbol that stands for a lumped element or an open circuit. An
    /// impedance is drawn as a resistor.
    pub open spec fn glyph(&self) -> Glyph {
        match self {
            Element::R(_) => Glyph::Resistor,
            Element::C(_) => Glyph::Capacitor,
            Element::L(_) => Glyph::Inductor,
            Element::V(_) => Glyph::VoltageSource,
            Element::Z(_) => Glyph::Resistor,
            Element::I(_) => Glyph::CurrentSource,
            _ => Glyph::Open,
        }
    }
}

/// Where cell `index` of a stack begins along the stack's axis, in a stack
/// allocated the length `length`: the first cell begins half that length
/// before the origin, and every cell but the last takes the share of the
/// length that falls to the natural width of what it holds.
pub open spec fn cell_start(nodes: Seq<ChainNode<'_>>, index: int, length: int) -> int
    decreases index,
{
    if index <= 0 {
        -half(length)
    } else {
        cell_start(nodes, index - 1, length) + share(
            length,
            nodes[index - 1].natural_size().width,
            nodes_size(nodes, nodes.len() as int).width,
        )
    }
}

/// Where cell `index` of a stack ends. The last cell ends where the
/// allocated length ends, and so takes what the rounding of the shares
/// leaves.
pub open spec fn cell_end(nodes: Seq<ChainNode<'_>>, index: int, length: int) -> int {
    if index + 1 < nodes.len() {
        cell_start(nodes, index + 1, length)
    } else {
        length - half(length)
    }
}

/// The size allocated to cell `index` of a stack: its length along the
/// axis, and the whole allocated height.
pub open spec fn cell_size(nodes: Seq<ChainNode<'_>>, index: int, size: Extent) -> Extent {
    Extent {
        width: cell_end(nodes, index, size.width) - cell_start(nodes, index, size.width),
        height: size.height,
    }
}

/// The frame of cell `index` of a stack: the middle of the cell on the
/// stack's axis.
pub open spec fn cell_frame(nodes: Seq<ChainNode<'_>>, index: int, size: Extent, frame: Frame) -> Frame {
    frame.shifted(
        cell_start(nodes, index, size.width) + half(cell_size(nodes, index, size).width),
        0,
    )
}

/// The cells of a stack lie end to end and span the allocated length: the
/// lengths allocated to them add up to it.
pub proof fn lemma_cells_span_the_length(nodes: Seq<ChainNode<'_>>, size: Extent)
    requires
        nodes.len() > 0,
    ensures
        cell_start(nodes, 0, size.width) == -half(size.width),
        cell_end(nodes, nodes.len() - 1, size.width) == cell_start(nodes, 0, size.width) + size.width,
        forall|index: int|
            0 <= index < nodes.len() - 1 ==> #[trigger] cell_end(nodes, index, size.width) == cell_start(
                nodes,
                index + 1,
                size.width,
            ),
        forall|index: int|
            0 <= index < nodes.len() ==> (#[trigger] cell_size(nodes, index, size)).width == cell_end(
                nodes,
                index,
                size.width,
            ) - cell_start(nodes, index, size.width),
{
}

/// What placing the first `count` cells of a stack emits.
pub open spec fn stack_placement(
    nodes: Seq<ChainNode<'_>>,
    count: int,
    size: Extent,
    frame: Frame,
) -> Seq<PrimitiveView>
    decreases nodes, count,
{
    if 0 < count <= nodes.len() {
        stack_placement(nodes, count - 1, size, frame) + (match nodes[count - 1] {
            ChainNode::Series(element) => element_placement(
                element,
                cell_size(nodes, count - 1, size),
                cell_frame(nodes, count - 1, size, frame),
            ),
            ChainNode::Shunt(element) => element_placement(
                element,
                cell_size(nodes, count - 1, size),
                cell_frame(nodes, count - 1, size, frame),
            ),
        })
    } else {
        Seq::empty()
    }
}

/// Cell `index` of a stack can be placed: the node is a series node, a
/// share can be taken where one is owed, the cell's size and frame fit, and
/// what the node holds can be placed in the cell.
pub open spec fn cell_drawable(nodes: Seq<ChainNode<'_>>, index: int, size: Extent, frame: Frame) -> bool
    decreases nodes, 0int,
{
    &&& 0 <= index < nodes.len()
    &&& index + 1 < nodes.len() ==> nodes_size(nodes, nodes.len() as int).width > 0
    &&& cell_size(nodes, index, size).fits()
    &&& cell_frame(nodes, index, size, frame).fits()
    &&& match nodes[index] {
        ChainNode::Series(element) => element_drawable(
            element,
            cell_size(nodes, index, size),
            cell_frame(nodes, index, size, frame),
        ),
        ChainNode::Shunt(_) => false,
    }
}

/// Each of the first `count` cells of a stack can be placed.
pub open spec fn stack_drawable(nodes: Seq<ChainNode<'_>>, count: int, size: Extent, frame: Frame) -> bool
    decreases nodes, count + 1,
{
    if 0 < count <= nodes.len() {
        stack_drawable(nodes, count - 1, size, frame) && cell_drawable(nodes, count - 1, size, frame)
    } else {
        true
    }
}

/// Where the first cells of a stack can be placed, each of them can.
pub proof fn lemma_stack_drawable_cell(
    nodes: Seq<ChainNode<'_>>,
    count: int,
    index: int,
    size: Extent,
    frame: Frame,
)
    requires
        0 <= index < count <= nodes.len(),
        stack_drawable(nodes, count, size, frame),
    ensures
        cell_drawable(nodes, index, size, frame),
    decreases count,
{
    if index < count - 1 {
        lemma_stack_drawable_cell(nodes, count - 1, index, size, frame);
    }
}

/// Where one of the first cells of a stack cannot be placed, no longer run
/// of its cells can.
pub proof fn lemma_stack_not_drawable(
    nodes: Seq<ChainNode<'_>>,
    count: int,
    index: int,
    size: Extent,
    frame: Frame,
)
    requires
        0 <= index < count <= nodes.len(),
        !cell_drawable(nodes, index, size, frame),
    ensures
        !stack_drawable(nodes, count, size, frame),
{
    if stack_drawable(nodes, count, size, frame) {
        lemma_stack_drawable_cell(nodes, count, index, size, frame);
    }
}

/// What placing an element emits: the glyph of a lumped element or an open
/// circuit, and the cells of a sub-chain.
pub open spec fn element_placement(element: Element<'_>, size: Extent, frame: Frame) -> Seq<PrimitiveView>
    decreases element, 0int,
{
    match element {
        Element::Sub(chain) => stack_placement(chain.0@, chain.0@.len() as int, size, frame),
        _ => seq![
            PrimitiveView::Glyph {
                kind: element.glyph(),
                label: element.label_text(),
                at: frame.origin,
                size,
                rotated: frame.rotated,
            },
        ],
    }
}

/// An element can be placed: a lumped element and an open circuit always,
/// a sub-chain where its natural size fits and each of its cells can be
/// placed.
pub open spec fn element_drawable(element: Element<'_>, size: Extent, frame: Frame) -> bool
    decreases element, 1int,
{
    match element {
        Element::Sub(chain) => {
            &&& nodes_size(chain.0@, chain.0@.len() as int).fits()
            &&& stack_drawable(chain.0@, chain.0@.len() as int, size, frame)
        },
        _ => true,
    }
}

/// A lumped element and an open circuit are one glyph. A sub-chain is a
/// stack of cells along its own axis, one to a node, that share out the
/// allocated length by the natural widths of what the nodes hold.
impl Draw for Element<'_> {
    open spec fn placement(&self, size: Extent, frame: Frame) -> Seq<PrimitiveView> {
        element_placement(*self, size, frame)
    }

    open spec fn drawable(&self, size: Extent, frame: Frame) -> bool {
        element_drawable(*self, size, frame)
    }

    fn can_draw(&self, size: Size, ctx: Context) -> (possible: bool)
        decreases self,
    {
        let chain = match self {
            Element::Sub(chain) => chain,
            _ => return true,
        };
        let whole = match chain.checked_layout_size() {
            Some(whole) => whole.0,
            None => return false,
        };
        let ghost nodes = chain.0@;
        let end: i64 = size.0 as i64 - halve(size.0);
        let mut start: i64 = -(halve(size.0));
        let mut i: usize = 0;
        while i < chain.0.len()
            invariant
                0 <= i <= nodes.len(),
                nodes == chain.0@,
                *self == Element::Sub(*chain),
                self.natural_size().fits(),
                whole == nodes_size(nodes, nodes.len() as int).width,
                end == size@.width - half(size@.width),
                i < nodes.len() ==> start == cell_start(nodes, i as int, size@.width),
                -0x2_0000_0000 <= start <= 0x2_0000_0000,
                stack_drawable(nodes, i as int, size@, ctx@),
            decreases nodes.len() - i,
        {
            proof {
                lemma_nodes_size_grows(nodes, i as int, i as int + 1);
                lemma_nodes_size_grows(nodes, i as int + 1, nodes.len() as int);
            }
            let node = &chain.0[i];
            let last = i + 1 == chain.0.len();
            if !last && whole == 0 {
                proof {
                    lemma_stack_not_drawable(nodes, nodes.len() as int, i as int, size@, ctx@);
                }
                return false;
            }
            let stop: i64 = if last {
                end
            } else {
                start + proportion(size.0, node.layout_size().0, whole) as i64
            };
            let length: i64 = stop - start;
            if length < -0x8000_0000 || length > 0x7fff_ffff {
                proof {
                    lemma_stack_not_drawable(nodes, nodes.len() as int, i as int, size@, ctx@);
                }
                return false;
            }
            let cell = Size(length as i32, size.1);
            let centre: i64 = start + halve(cell.0);
            let moved = ctx.try_moved(centre, 0);
            let inner = match node {
                ChainNode::Series(element) => match moved {
                    Some(cell_ctx) => element.can_draw(cell, cell_ctx),
                    None => false,
                },
                ChainNode::Shunt(_) => false,
            };
            if !inner {
                proof {
                    lemma_stack_not_drawable(nodes, nodes.len() as int, i as int, size@, ctx@);
                }
                return false;
            }
            assert(cell_drawable(nodes, i as int, size@, ctx@));
            start = stop;
            i = i + 1;
        }
        true
    }

    fn draw<D: Drawer>(&self, size: Size, ctx: Context, drawer: &mut D)
        decreases self,
    {
        let chain = match self {
            Element::Sub(chain) => chain,
            _ => {
                let label = self.to_string();
                match self {
                    Element::R(_) => drawer.resistor(label.as_str(), ctx.position, size, ctx.rotate),
                    Element::C(_) => drawer.capacitor(label.as_str(), ctx.position, size, ctx.rotate),
                    Element::L(_) => drawer.inductor(label.as_str(), ctx.position, size, ctx.rotate),
                    Element::V(_) => drawer.voltage_source(label.as_str(), ctx.position, size, ctx.rotate),
                    Element::Z(_) => drawer.resistor(label.as_str(), ctx.position, size, ctx.rotate),
                    Element::I(_) => drawer.current_source(label.as_str(), ctx.position, size, ctx.rotate),
                    _ => drawer.open(label.as_str(), ctx.position, size, ctx.rotate),
                }
                return ;
            },
        };
        let ghost before = drawer.emitted();
        let ghost nodes = chain.0@;
        let whole = chain.layout_size().0;
        let end: i64 = size.0 as i64 - halve(size.0);
        let mut start: i64 = -(halve(size.0));
        let mut i: usize = 0;
        while i < chain.0.len()
            invariant
                0 <= i <= nodes.len(),
                nodes == chain.0@,
                *self == Element::Sub(*chain),
                self.drawable(size@, ctx@),
                whole == nodes_size(nodes, nodes.len() as int).width,
                end == size@.width - half(size@.width),
                i < nodes.len() ==> start == cell_start(nodes, i as int, size@.width),
                -0x2_0000_0000 <= start <= 0x2_0000_0000,
                drawer.emitted() == before + stack_placement(nodes, i as int, size@, ctx@),
            decreases nodes.len() - i,
        {
            proof {
                lemma_nodes_size_grows(nodes, i as int, i as int + 1);
                lemma_nodes_size_grows(nodes, i as int + 1, nodes.len() as int);
                lemma_stack_drawable_cell(nodes, nodes.len() as int, i as int, size@, ctx@);
            }
            let node = &chain.0[i];
            let stop: i64 = if i + 1 == chain.0.len() {
                end
            } else {
                start + proportion(size.0, node.layout_size().0, whole) as i64
            };
            let cell = Size((stop - start) as i32, size.1);
            node.element().draw(cell, ctx.moved(start + halve(cell.0), 0), drawer);
            start = stop;
            i = i + 1;
        }
    }
}

/// Where node `index` of a chain begins along the chain's axis, in a chain
/// allocated the width `width`: the first node begins half that width
/// before the origin, and every node takes twice the half of its natural
/// width.
pub open spec fn node_start(nodes: Seq<ChainNode<'_>>, width: int, index: int) -> int
    decreases index,
{
    if index <= 0 {
        -half(width)
    } else {
        node_start(nodes, width, index - 1) + 2 * half(nodes[index - 1].natural_size().width)
    }
}

/// What placing node `index` of a chain emits.
///
/// A series node is drawn on the top rail, in the node's width and the
/// chain's whole height, followed by a wire on the bottom rail under it. A
/// shunt node is drawn turned by a quarter between the rails, after the
/// wires that join it to its neighbours: top and bottom wire to the left
/// where a node precedes it, to the right where one follows, and a junction
/// on each rail where both do.
pub open spec fn node_placement(
    nodes: Seq<ChainNode<'_>>,
    index: int,
    size: Extent,
    frame: Frame,
) -> Seq<PrimitiveView> {
    let width = nodes[index].natural_size().width;
    let reach = half(width);
    let centre = node_start(nodes, size.width, index) + reach;
    let top = -half(size.height);
    let bottom = half(size.height);
    match nodes[index] {
        ChainNode::Series(element) => element.placement(
            Extent { width, height: size.height },
            frame.shifted(centre, top),
        ) + seq![
            PrimitiveView::Wire {
                from: frame.shifted(centre - reach, bottom).origin,
                to: frame.shifted(centre + reach, bottom).origin,
            },
        ],
        ChainNode::Shunt(element) => {
            let left = index > 0;
            let right = index + 1 < nodes.len();
            (if left {
                seq![
                    PrimitiveView::Wire {
                        from: frame.shifted(centre - reach, top).origin,
                        to: frame.shifted(centre, top).origin,
                    },
                    PrimitiveView::Wire {
                        from: frame.shifted(centre - reach, bottom).origin,
                        to: frame.shifted(centre, bottom).origin,
                    },
                ]
            } else {
                Seq::empty()
            }) + (if right {
                seq![
                    PrimitiveView::Wire {
                        from: frame.shifted(centre, top).origin,
                        to: frame.shifted(centre + reach, top).origin,
                    },
                    PrimitiveView::Wire {
                        from: frame.shifted(centre, bottom).origin,
                        to: frame.shifted(centre + reach, bottom).origin,
                    },
                ]
            } else {
                Seq::empty()
            }) + (if left && right {
                seq![
                    PrimitiveView::Junction { at: frame.shifted(centre, top).origin },
                    PrimitiveView::Junction { at: frame.shifted(centre, bottom).origin },
                ]
            } else {
                Seq::empty()
            }) + element.placement(
                Extent { width: size.height, height: width },
                frame.shifted(centre, 0).turned(),
            )
        },
    }
}

/// Placing node `index` of a chain stays within what a `Position` holds.
pub open spec fn node_drawable(nodes: Seq<ChainNode<'_>>, index: int, size: Extent, frame: Frame) -> bool {
    let width = nodes[index].natural_size().width;
    let reach = half(width);
    let centre = node_start(nodes, size.width, index) + reach;
    let top = -half(size.height);
    let bottom = half(size.height);
    &&& frame.shifted(centre - reach, top).fits()
    &&& frame.shifted(centre, top).fits()
    &&& frame.shifted(centre + reach, top).fits()
    &&& frame.shifted(centre - reach, bottom).fits()
    &&& frame.shifted(centre, bottom).fits()
    &&& frame.shifted(centre + reach, bottom).fits()
    &&& frame.shifted(centre, 0).fits()
    &&& match nodes[index] {
        ChainNode::Series(element) => element.drawable(
            Extent { width, height: size.height },
            frame.shifted(centre, top),
        ),
        ChainNode::Shunt(element) => element.drawable(
            Extent { width: size.height, height: width },
            frame.shifted(centre, 0).turned(),
        ),
    }
}

/// What placing the first `count` nodes of a chain emits.
pub open spec fn nodes_placement(
    nodes: Seq<ChainNode<'_>>,
    count: int,
    size: Extent,
    frame: Frame,
) -> Seq<PrimitiveView>
    decreases count,
{
    if count <= 0 {
        Seq::empty()
    } else {
        nodes_placement(nodes, count - 1, size, frame) + node_placement(nodes, count - 1, size, frame)
    }
}

/// Tells whether node `index` of a chain can be placed, and where the next
/// node begins.
fn can_draw_node(nodes: &Vec<ChainNode>, index: usize, start: i64, size: Size, ctx: Context) -> (next: Option<
    i64,
>)
    requires
        index < nodes@.len(),
        nodes@[index as int].natural_size().fits(),
        start == node_start(nodes@, size@.width, index as int),
        -0x2_0000_0000 <= start <= 0x2_0000_0000,
    ensures
        match next {
            Some(next) => {
                &&& node_drawable(nodes@, index as int, size@, ctx@)
                &&& next == node_start(nodes@, size@.width, index as int + 1)
            },
            None => !node_drawable(nodes@, index as int, size@, ctx@),
        },
{
    let top_line: i64 = -(halve(size.1));
    let bottom_line: i64 = halve(size.1);
    let node = &nodes[index];
    let requested = node.layout_size();
    let reach = halve(requested.0);
    let offset = start + reach;
    let rails = ctx.try_moved(offset - reach, top_line).is_some() && ctx.try_moved(
        offset,
        top_line,
    ).is_some() && ctx.try_moved(offset + reach, top_line).is_some() && ctx.try_moved(
        offset - reach,
        bottom_line,
    ).is_some() && ctx.try_moved(offset, bottom_line).is_some() && ctx.try_moved(
        offset + reach,
        bottom_line,
    ).is_some() && ctx.try_moved(offset, 0).is_some();
    if !rails {
        return None;
    }
    let inner = match node {
        ChainNode::Series(element) => element.can_draw(
            Size(requested.0, size.1),
            ctx.moved(offset, top_line),
        ),
        ChainNode::Shunt(element) => element.can_draw(
            Size(size.1, requested.0),
            ctx.moved(offset, 0).rotate(),
        ),
    };
    if inner {
        Some(offset + reach)
    } else {
        None
    }
}

/// Places node `index` of a chain, and tells where the next node begins.
fn draw_node<D: Drawer>(
    nodes: &Vec<ChainNode>,
    index: usize,
    start: i64,
    size: Size,
    ctx: Context,
    drawer: &mut D,
) -> (next: i64)
    requires
        index < nodes@.len(),
        nodes@[index as int].natural_size().fits(),
        start == node_start(nodes@, size@.width, index as int),
        -0x2_0000_0000 <= start <= 0x2_0000_0000,
        node_drawable(nodes@, index as int, size@, ctx@),
    ensures
        next == node_start(nodes@, size@.width, index as int + 1),
        final(drawer).emitted() == old(drawer).emitted() + node_placement(
            nodes@,
            index as int,
            size@,
            ctx@,
        ),
{
    let top_line: i64 = -(halve(size.1));
    let bottom_line: i64 = halve(size.1);
    let node = &nodes[index];
    let requested = node.layout_size();
    let reach = halve(requested.0);
    let offset = start + reach;
    match node {
        ChainNode::Series(element) => {
            element.draw(Size(requested.0, size.1), ctx.moved(offset, top_line), drawer);
            drawer.wire(
                ctx.moved(offset - reach, bottom_line).position,
                ctx.moved(offset + reach, bottom_line).position,
            );
        },
        ChainNode::Shunt(element) => {
            let left_exists = index != 0;
            let right_exists = index < nodes.len() - 1;
            if left_exists {
                drawer.wire(
                    ctx.moved(offset - reach, top_line).position,
                    ctx.moved(offset, top_line).position,
                );
                drawer.wire(
                    ctx.moved(offset - reach, bottom_line).position,
                    ctx.moved(offset, bottom_line).position,
                );
            }
            if right_exists {
                drawer.wire(
                    ctx.moved(offset, top_line).position,
                    ctx.moved(offset + reach, top_line).position,
                );
                drawer.wire(
                    ctx.moved(offset, bottom_line).position,
                    ctx.moved(offset + reach, bottom_line).position,
                );
            }
            if left_exists && right_exists {
                drawer.junction(ctx.moved(offset, top_line).position);
                drawer.junction(ctx.moved(offset, bottom_line).position);
            }
            element.draw(Size(size.1, requested.0), ctx.moved(offset, 0).rotate(), drawer);
        },
    }
    assert(drawer.emitted() =~= old(drawer).emitted() + node_placement(
        nodes@,
        index as int,
        size@,
        ctx@,
    ));
    offset + reach
}

/// A chain places its nodes one after the other along its axis, each in its
/// natural width, beginning half the allocated width before the origin. The
/// top rail lies half the allocated height above the axis, the bottom rail
/// as much below.
impl Draw for Chain<'_> {
    open spec fn placement(&self, size: Extent, frame: Frame) -> Seq<PrimitiveView> {
        nodes_placement(self.0@, self.0@.len() as int, size, frame)
    }

    open spec fn drawable(&self, size: Extent, frame: Frame) -> bool {
        &&& self.natural_size().fits()
        &&& forall|index: int|
            0 <= index < self.0@.len() ==> #[trigger] node_drawable(self.0@, index, size, frame)
    }

    fn can_draw(&self, size: Size, ctx: Context) -> (possible: bool) {
        if self.checked_layout_size().is_none() {
            return false;
        }
        let mut start: i64 = -(halve(size.0));
        let mut i: usize = 0;
        while i < self.0.len()
            invariant
                0 <= i <= self.0@.len(),
                self.natural_size().fits(),
                start == node_start(self.0@, size@.width, i as int),
                -half(size@.width) <= start <= -half(size@.width) + nodes_size(self.0@, i as int).width,
                forall|index: int|
                    0 <= index < i ==> #[trigger] node_drawable(self.0@, index, size@, ctx@),
            decreases self.0@.len() - i,
        {
            proof {
                lemma_nodes_size_grows(self.0@, i as int, i as int + 1);
                lemma_nodes_size_grows(self.0@, i as int + 1, self.0@.len() as int);
                lemma_half_twice(self.0@[i as int].natural_size().width);
            }
            start = match can_draw_node(&self.0, i, start, size, ctx) {
                Some(next) => next,
                None => return false,
            };
            i = i + 1;
        }
        true
    }

    fn draw<D: Drawer>(&self, size: Size, ctx: Context, drawer: &mut D) {
        let ghost before = drawer.emitted();
        let mut start: i64 = -(halve(size.0));
        let mut i: usize = 0;
        while i < self.0.len()
            invariant
                0 <= i <= self.0@.len(),
                self.drawable(size@, ctx@),
                start == node_start(self.0@, size@.width, i as int),
                -half(size@.width) <= start <= -half(size@.width) + nodes_size(self.0@, i as int).width,
                drawer.emitted() == before + nodes_placement(self.0@, i as int, size@, ctx@),
            decreases self.0@.len() - i,
        {
            proof {
                lemma_nodes_size_grows(self.0@, i as int, i as int + 1);
                lemma_nodes_size_grows(self.0@, i as int + 1, self.0@.len() as int);
                lemma_half_twice(self.0@[i as int].natural_size().width);
            }
            start = draw_node(&self.0, i, start, size, ctx, drawer);
            i = i + 1;
            assert(drawer.emitted() =~= before + nodes_placement(self.0@, i as int, size@, ctx@));
        }
    }
}

} // verus!
