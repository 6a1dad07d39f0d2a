//! Top-down placement: walks a circuit tree with an allocated size and a
//! drawing context, and hands glyphs, wires and junctions to a sink.

use vstd::prelude::*;
use vstd::string::StringExecFns;
use crate::circuit;
use crate::layout::{
    lemma_link_size_at_least_element, lemma_links_size_grows, links_size, Extent, Layout, Point,
    Position, Size,
};

pub mod chain;
pub mod vector;

verus! {

/// The running state of a placement: where the current node's origin lies
/// and whether the node is drawn turned by a quarter.
#[derive(Debug, Copy, Clone, PartialEq, Eq, Structural)]
pub struct Context {
    pub position: Position,
    pub rotate: bool,
}

/// What a `Context` stands for, over the integers.
pub struct Frame {
    pub origin: Point,
    pub rotated: bool,
}

impl View for Context {
    type V = Frame;

    open spec fn view(&self) -> Frame {
        Frame { origin: self.position@, rotated: self.rotate }
    }
}

impl Frame {
    /// The frame moved by `along` on the node's own axis and by `across` on
    /// the other one. In a rotated frame the node's own axis is the
    /// plane's vertical.
    pub open spec fn shifted(self, along: int, across: int) -> Frame {
        Frame {
            origin: if self.rotated {
                Point { x: self.origin.x + across, y: self.origin.y + along }
            } else {
                Point { x: self.origin.x + along, y: self.origin.y + across }
            },
            rotated: self.rotated,
        }
    }

    /// The same origin, turned by a quarter.
    pub open spec fn turned(self) -> Frame {
        Frame { origin: self.origin, rotated: !self.rotated }
    }

    /// A `Context` can hold the frame.
    pub open spec fn fits(self) -> bool {
        self.origin.fits()
    }
}

impl Default for Context {
    fn default() -> (ctx: Self)
        ensures
            ctx == (Context { position: Position(0, 0), rotate: false }),
    {
        Context { position: Position(0, 0), rotate: false }
    }
}

impl Context {
    /// Moves the origin by `x` along the node's own axis and by `y` across.
    pub fn translate(self, x: i32, y: i32) -> (moved: Self)
        requires
            self@.shifted(x as int, y as int).fits(),
        ensures
            moved@ == self@.shifted(x as int, y as int),
    {
        self.moved(x as i64, y as i64)
    }

    /// Moves the origin as `translate` does, and tells where no `Position`
    /// can hold the new origin.
    pub fn checked_translate(self, x: i32, y: i32) -> (moved: Option<Self>)
        ensures
            match moved {
                Some(moved) => {
                    &&& self@.shifted(x as int, y as int).fits()
                    &&& moved@ == self@.shifted(x as int, y as int)
                },
                None => !self@.shifted(x as int, y as int).fits(),
            },
    {
        self.try_moved(x as i64, y as i64)
    }

    /// Turns the context by a quarter.
    pub fn rotate(self) -> (turned: Self)
        ensures
            turned@ == self@.turned(),
    {
        Context { position: self.position, rotate: !self.rotate }
    }

    /// The context moved as by `translate`, where a `Position` can hold the
    /// new origin.
    fn try_moved(self, along: i64, across: i64) -> (moved: Option<Self>)
        requires
            -0x100_0000_0000 <= along <= 0x100_0000_0000,
            -0x100_0000_0000 <= across <= 0x100_0000_0000,
        ensures
            match moved {
                Some(moved) => {
                    &&& self@.shifted(along as int, across as int).fits()
                    &&& moved@ == self@.shifted(along as int, across as int)
                },
                None => !self@.shifted(along as int, across as int).fits(),
            },
    {
        let (dx, dy) = if self.rotate { (across, along) } else { (along, across) };
        let x: i64 = self.position.0 as i64 + dx;
        let y: i64 = self.position.1 as i64 + dy;
        if -0x8000_0000 <= x && x <= 0x7fff_ffff && -0x8000_0000 <= y && y <= 0x7fff_ffff {
            Some(Context { position: Position(x as i32, y as i32), rotate: self.rotate })
        } else {
            None
        }
    }

    fn moved(self, along: i64, across: i64) -> (moved: Self)
        requires
            self@.shifted(along as int, across as int).fits(),
        ensures
            moved@ == self@.shifted(along as int, across as int),
    {
        if self.rotate {
            Context {
                position: Position(
                    (self.position.0 as i64 + across) as i32,
                    (self.position.1 as i64 + along) as i32,
                ),
                rotate: self.rotate,
            }
        } else {
            Context {
                position: Position(
                    (self.position.0 as i64 + along) as i32,
                    (self.position.1 as i64 + across) as i32,
                ),
                rotate: self.rotate,
            }
        }
    }
}

/// The symbols a sink can draw for an element.
#[derive(Debug, Copy, Clone, PartialEq, Eq, Structural)]
pub enum Glyph {
    Resistor,
    Capacitor,
    Inductor,
    VoltageSource,
    CurrentSource,
    Open,
}

/// One request made of a sink.
pub enum PrimitiveView {
    /// An element's symbol with its label, centred at `at`.
    Glyph { kind: Glyph, label: Seq<char>, at: Point, size: Extent, rotated: bool },
    /// A wire between two points.
    Wire { from: Point, to: Point },
    /// A junction dot.
    Junction { at: Point },
}

/// A sink for drawing primitives. `emitted` is the record of all that the
/// sink was asked to draw, oldest first; every operation adds one entry.
///
/// A verified sink says what its record is. A sink outside verified code
/// need not; what is proved of a placement then holds of the requests made
/// of it, in their order.
pub trait Drawer {
    open spec fn emitted(&self) -> Seq<PrimitiveView> {
        arbitrary()
    }

    fn resistor(&mut self, label: &str, position: Position, size: Size, rotate: bool)
        ensures
            final(self).emitted() == old(self).emitted().push(
                glyph(Glyph::Resistor, label@, position, size, rotate),
            ),
    ;

    fn capacitor(&mut self, label: &str, position: Position, size: Size, rotate: bool)
        ensures
            final(self).emitted() == old(self).emitted().push(
                glyph(Glyph::Capacitor, label@, position, size, rotate),
            ),
    ;

    fn inductor(&mut self, label: &str, position: Position, size: Size, rotate: bool)
        ensures
            final(self).emitted() == old(self).emitted().push(
                glyph(Glyph::Inductor, label@, position, size, rotate),
            ),
    ;

    fn voltage_source(&mut self, label: &str, position: Position, size: Size, rotate: bool)
        ensures
            final(self).emitted() == old(self).emitted().push(
                glyph(Glyph::VoltageSource, label@, position, size, rotate),
            ),
    ;

    fn current_source(&mut self, label: &str, position: Position, size: Size, rotate: bool)
        ensures
            final(self).emitted() == old(self).emitted().push(
                glyph(Glyph::CurrentSource, label@, position, size, rotate),
            ),
    ;

    fn open(&mut self, label: &str, position: Position, size: Size, rotate: bool)
        ensures
            final(self).emitted() == old(self).emitted().push(
                glyph(Glyph::Open, label@, position, size, rotate),
            ),
    ;

    fn wire(&mut self, a: Position, b: Position)
        ensures
            final(self).emitted() == old(self).emitted().push(
                PrimitiveView::Wire { from: a@, to: b@ },
            ),
    ;

    fn junction(&mut self, position: Position)
        ensures
            final(self).emitted() == old(self).emitted().push(
                PrimitiveView::Junction { at: position@ },
            ),
    ;
}

/// The record of one glyph request.
pub open spec fn glyph(kind: Glyph, label: Seq<char>, position: Position, size: Size, rotate: bool) -> PrimitiveView {
    PrimitiveView::Glyph { kind, label, at: position@, size: size@, rotated: rotate }
}

/// One request made of a sink, as a `Recorder` keeps it.
#[derive(Debug, PartialEq, Eq)]
pub enum Primitive {
    /// An element's symbol with its label, centred at `position`.
    Glyph { kind: Glyph, label: String, position: Position, size: Size, rotate: bool },
    /// A wire between two points.
    Wire(Position, Position),
    /// A junction dot.
    Junction(Position),
}

impl View for Primitive {
    type V = PrimitiveView;

    open spec fn view(&self) -> PrimitiveView {
        match self {
            Primitive::Glyph { kind, label, position, size, rotate } => glyph(
                *kind,
                label@,
                *position,
                *size,
                *rotate,
            ),
            Primitive::Wire(a, b) => PrimitiveView::Wire { from: a@, to: b@ },
            Primitive::Junction(position) => PrimitiveView::Junction { at: position@ },
        }
    }
}

/// A sink that keeps what it is asked to draw.
pub struct Recorder {
    pub primitives: Vec<Primitive>,
}

impl Recorder {
    /// A recorder that holds nothing.
    pub fn new() -> (recorder: Self)
        ensures
            recorder.primitives@.len() == 0,
            recorder.emitted() == Seq::<PrimitiveView>::empty(),
    {
        let recorder = Recorder { primitives: Vec::new() };
        recorder
    }

    fn keep(&mut self, primitive: Primitive)
        ensures
            final(self).primitives@ == old(self).primitives@.push(primitive),
            final(self).emitted() == old(self).emitted().push(primitive@),
    {
        self.primitives.push(primitive);
    }

    fn keep_glyph(&mut self, kind: Glyph, label: &str, position: Position, size: Size, rotate: bool)
        ensures
            final(self).emitted() == old(self).emitted().push(glyph(kind, label@, position, size, rotate)),
    {
        self.keep(Primitive::Glyph { kind, label: String::from_str(label), position, size, rotate });
    }
}

impl Drawer for Recorder {
    open spec fn emitted(&self) -> Seq<PrimitiveView> {
        Seq::new(self.primitives@.len(), |i: int| self.primitives@[i]@)
    }

    fn resistor(&mut self, label: &str, position: Position, size: Size, rotate: bool) {
        self.keep_glyph(Glyph::Resistor, label, position, size, rotate);
    }

    fn capacitor(&mut self, label: &str, position: Position, size: Size, rotate: bool) {
        self.keep_glyph(Glyph::Capacitor, label, position, size, rotate);
    }

    fn inductor(&mut self, label: &str, position: Position, size: Size, rotate: bool) {
        self.keep_glyph(Glyph::Inductor, label, position, size, rotate);
    }

    fn voltage_source(&mut self, label: &str, position: Position, size: Size, rotate: bool) {
        self.keep_glyph(Glyph::VoltageSource, label, position, size, rotate);
    }

    fn current_source(&mut self, label: &str, position: Position, size: Size, rotate: bool) {
        self.keep_glyph(Glyph::CurrentSource, label, position, size, rotate);
    }

    fn open(&mut self, label: &str, position: Position, size: Size, rotate: bool) {
        self.keep_glyph(Glyph::Open, label, position, size, rotate);
    }

    fn wire(&mut self, a: Position, b: Position) {
        self.keep(Primitive::Wire(a, b));
    }

    fn junction(&mut self, position: Position) {
        self.keep(Primitive::Junction(position));
    }
}

/// Something that can be placed: drawn into an allocated size at a context.
pub trait Draw {
    /// The primitives that placing the node emits, in order.
    open spec fn placement(&self, size: Extent, frame: Frame) -> Seq<PrimitiveView> {
        arbitrary()
    }

    /// Every coordinate that placing the node computes can be held by a
    /// `Position`, and every size by a `Size`.
    open spec fn drawable(&self, size: Extent, frame: Frame) -> bool {
        arbitrary()
    }

    /// Tells whether the node can be placed in `size` at `ctx`.
    fn can_draw(&self, size: Size, ctx: Context) -> (possible: bool)
        ensures
            possible == self.drawable(size@, ctx@),
    ;

    /// Places the node in `size` at `ctx`, and hands the sink what that
    /// emits.
    fn draw<D: Drawer>(&self, size: Size, ctx: Context, drawer: &mut D)
        requires
            self.drawable(size@, ctx@),
        ensures
            final(drawer).emitted() == old(drawer).emitted() + self.placement(size@, ctx@),
    ;
}

impl circuit::Element<'_> {
    /// The symbol that stands for the element. An impedance is drawn as a
    /// resistor.
    pub open spec fn glyph(&self) -> Glyph {
        match self {
            circuit::Element::R(_) => Glyph::Resistor,
            circuit::Element::C(_) => Glyph::Capacitor,
            circuit::Element::L(_) => Glyph::Inductor,
            circuit::Element::V(_) => Glyph::VoltageSource,
            circuit::Element::Z(_) => Glyph::Resistor,
            circuit::Element::I(_) => Glyph::CurrentSource,
            circuit::Element::Open => Glyph::Open,
        }
    }
}

impl Draw for circuit::Element<'_> {
    open spec fn placement(&self, size: Extent, frame: Frame) -> Seq<PrimitiveView> {
        seq![
            PrimitiveView::Glyph {
                kind: self.glyph(),
                label: self.label_text(),
                at: frame.origin,
                size,
                rotated: frame.rotated,
            },
        ]
    }

    open spec fn drawable(&self, size: Extent, frame: Frame) -> bool {
        true
    }

    fn can_draw(&self, size: Size, ctx: Context) -> (possible: bool) {
        true
    }

    fn draw<D: Drawer>(&self, size: Size, ctx: Context, drawer: &mut D) {
        let label = self.label();
        match self {
            circuit::Element::R(_) => drawer.resistor(label.as_str(), ctx.position, size, ctx.rotate),
            circuit::Element::C(_) => drawer.capacitor(label.as_str(), ctx.position, size, ctx.rotate),
            circuit::Element::L(_) => drawer.inductor(label.as_str(), ctx.position, size, ctx.rotate),
            circuit::Element::V(_) => drawer.voltage_source(label.as_str(), ctx.position, size, ctx.rotate),
            circuit::Element::Z(_) => drawer.resistor(label.as_str(), ctx.position, size, ctx.rotate),
            circuit::Element::I(_) => drawer.current_source(label.as_str(), ctx.position, size, ctx.rotate),
            circuit::Element::Open => drawer.open(label.as_str(), ctx.position, size, ctx.rotate),
        }
    }
}

/// The length of each of the two stub wires that lead from the rails of a
/// parallel group out to the edge of the group's allocated width. The
/// natural size of a group makes no room for the stubs: placement takes it
/// from the allocated width, and the branches are allocated what is left
/// between the stubs.
pub const LEAD_IN: i32 = 20;

/// The quotient of `a` by a positive `b`, rounded toward zero.
pub open spec fn quotient(a: int, b: int) -> int {
    if a >= 0 { a / b } else { -((-a) / b) }
}

/// Half of `a`, rounded toward zero.
pub open spec fn half(a: int) -> int {
    quotient(a, 2)
}

/// The share of `total` that falls to `part` out of `whole`, rounded toward
/// zero.
pub open spec fn share(total: int, part: int, whole: int) -> int {
    quotient(total * part, whole)
}

/// How a series group divides its allocated size: the width in proportion to
/// the natural widths, the remainder of the rounding going to the right
/// child; both children keep the allocated height.
pub open spec fn series_split(size: Extent, left: Extent, right: Extent) -> (Extent, Extent) {
    let left_width = share(size.width, left.width, left.width + right.width);
    (
        Extent { width: left_width, height: size.height },
        Extent { width: size.width - left_width, height: size.height },
    )
}

/// How a parallel group divides its allocated size: the height in proportion
/// to the natural heights, the remainder of the rounding going to the bottom
/// child; both children get the allocated width less the two stubs.
pub open spec fn parallel_split(size: Extent, top: Extent, bottom: Extent) -> (Extent, Extent) {
    let top_height = share(size.height, top.height, top.height + bottom.height);
    (
        Extent { width: size.width - 2 * LEAD_IN, height: top_height },
        Extent { width: size.width - 2 * LEAD_IN, height: size.height - top_height },
    )
}

/// What closes a parallel group into one two-terminal unit, given the sizes
/// allocated to its branches: the left and the right rail, each from the
/// axis of the top branch to the axis of the bottom branch, a junction on
/// each rail where it crosses the group's axis, and the two stubs.
pub open spec fn parallel_rails(frame: Frame, top: Extent, bottom: Extent) -> Seq<PrimitiveView> {
    let reach = half(top.width);
    let up = -half(top.height);
    let down = half(bottom.height);
    seq![
        PrimitiveView::Wire {
            from: frame.shifted(-reach, up).origin,
            to: frame.shifted(-reach, down).origin,
        },
        PrimitiveView::Wire {
            from: frame.shifted(reach, up).origin,
            to: frame.shifted(reach, down).origin,
        },
        PrimitiveView::Junction { at: frame.shifted(-reach, 0).origin },
        PrimitiveView::Junction { at: frame.shifted(reach, 0).origin },
        PrimitiveView::Wire {
            from: frame.shifted(-reach - LEAD_IN, 0).origin,
            to: frame.shifted(-reach, 0).origin,
        },
        PrimitiveView::Wire {
            from: frame.shifted(reach + LEAD_IN, 0).origin,
            to: frame.shifted(reach, 0).origin,
        },
    ]
}

/// The frames in which the rails of a parallel group end all fit.
pub open spec fn rails_fit(frame: Frame, top: Extent, bottom: Extent) -> bool {
    let reach = half(top.width);
    let up = -half(top.height);
    let down = half(bottom.height);
    &&& frame.shifted(-reach, up).fits()
    &&& frame.shifted(-reach, down).fits()
    &&& frame.shifted(reach, up).fits()
    &&& frame.shifted(reach, down).fits()
    &&& frame.shifted(-reach, 0).fits()
    &&& frame.shifted(reach, 0).fits()
    &&& frame.shifted(-reach - LEAD_IN, 0).fits()
    &&& frame.shifted(reach + LEAD_IN, 0).fits()
}

/// A group of one is placed as the one.
///
/// A series group divides its allocated width between its children and
/// places them on either side of its origin: the left child centred half
/// its own width before the origin, the right child half its own width
/// behind it.
///
/// A parallel group divides its allocated height between its children and
/// places them on either side of its axis in the same way, the top child
/// above. It then closes the rails, as `parallel_rails` says.
impl Draw for circuit::SubCircuitGroup<'_> {
    open spec fn placement(&self, size: Extent, frame: Frame) -> Seq<PrimitiveView>
        decreases self,
    {
        match self {
            circuit::SubCircuitGroup::Single(circuit) => circuit.placement(size, frame),
            circuit::SubCircuitGroup::Series(left, right) => {
                let (left_size, right_size) = series_split(size, left.natural_size(), right.natural_size());
                left.placement(left_size, frame.shifted(-half(left_size.width), 0))
                    + right.placement(right_size, frame.shifted(half(right_size.width), 0))
            },
            circuit::SubCircuitGroup::Parallel(top, bottom) => {
                let (top_size, bottom_size) = parallel_split(size, top.natural_size(), bottom.natural_size());
                top.placement(top_size, frame.shifted(0, -half(top_size.height)))
                    + bottom.placement(bottom_size, frame.shifted(0, half(bottom_size.height)))
                    + parallel_rails(frame, top_size, bottom_size)
            },
        }
    }

    open spec fn drawable(&self, size: Extent, frame: Frame) -> bool
        decreases self,
    {
        match self {
            circuit::SubCircuitGroup::Single(circuit) => circuit.drawable(size, frame),
            circuit::SubCircuitGroup::Series(left, right) => {
                let (left_size, right_size) = series_split(size, left.natural_size(), right.natural_size());
                &&& self.natural_size().fits()
                &&& frame.shifted(-half(left_size.width), 0).fits()
                &&& frame.shifted(half(right_size.width), 0).fits()
                &&& left.drawable(left_size, frame.shifted(-half(left_size.width), 0))
                &&& right.drawable(right_size, frame.shifted(half(right_size.width), 0))
            },
            circuit::SubCircuitGroup::Parallel(top, bottom) => {
                let (top_size, bottom_size) = parallel_split(size, top.natural_size(), bottom.natural_size());
                &&& self.natural_size().fits()
                &&& top_size.fits()
                &&& frame.shifted(0, -half(top_size.height)).fits()
                &&& frame.shifted(0, half(bottom_size.height)).fits()
                &&& rails_fit(frame, top_size, bottom_size)
                &&& top.drawable(top_size, frame.shifted(0, -half(top_size.height)))
                &&& bottom.drawable(bottom_size, frame.shifted(0, half(bottom_size.height)))
            },
        }
    }

    fn can_draw(&self, size: Size, ctx: Context) -> (possible: bool)
        decreases self,
    {
        proof {
            crate::layout::lemma_group_children_fit(self);
        }
        match self {
            circuit::SubCircuitGroup::Single(circuit) => circuit.can_draw(size, ctx),
            circuit::SubCircuitGroup::Series(left, right) => {
                if self.checked_layout_size().is_none() {
                    return false;
                }
                let natural_left = left.layout_size();
                let natural_right = right.layout_size();
                let left_width = proportion(size.0, natural_left.0, natural_left.0 + natural_right.0);
                let left_size = Size(left_width, size.1);
                let right_size = Size(size.0 - left_width, size.1);
                match (ctx.try_moved(-(halve(left_size.0)), 0), ctx.try_moved(halve(right_size.0), 0)) {
                    (Some(left_ctx), Some(right_ctx)) => left.can_draw(left_size, left_ctx) && right.can_draw(
                        right_size,
                        right_ctx,
                    ),
                    _ => false,
                }
            },
            circuit::SubCircuitGroup::Parallel(top, bottom) => {
                if self.checked_layout_size().is_none() {
                    return false;
                }
                let natural_top = top.layout_size();
                let natural_bottom = bottom.layout_size();
                let width = match size.0.checked_sub(2 * LEAD_IN) {
                    Some(width) => width,
                    None => return false,
                };
                let top_height = proportion(size.1, natural_top.1, natural_top.1 + natural_bottom.1);
                let top_size = Size(width, top_height);
                let bottom_size = Size(width, size.1 - top_height);
                let reach = halve(width);
                let up = -(halve(top_size.1));
                let down = halve(bottom_size.1);
                let rails = ctx.try_moved(-reach, up).is_some() && ctx.try_moved(-reach, down).is_some()
                    && ctx.try_moved(reach, up).is_some() && ctx.try_moved(reach, down).is_some()
                    && ctx.try_moved(-reach, 0).is_some() && ctx.try_moved(reach, 0).is_some()
                    && ctx.try_moved(-reach - LEAD_IN as i64, 0).is_some() && ctx.try_moved(
                    reach + LEAD_IN as i64,
                    0,
                ).is_some();
                if !rails {
                    return false;
                }
                match (ctx.try_moved(0, up), ctx.try_moved(0, down)) {
                    (Some(top_ctx), Some(bottom_ctx)) => top.can_draw(top_size, top_ctx) && bottom.can_draw(
                        bottom_size,
                        bottom_ctx,
                    ),
                    _ => false,
                }
            },
        }
    }

    fn draw<D: Drawer>(&self, size: Size, ctx: Context, drawer: &mut D)
        decreases self,
    {
        proof {
            crate::layout::lemma_group_children_fit(self);
        }
        match self {
            circuit::SubCircuitGroup::Single(circuit) => circuit.draw(size, ctx, drawer),
            circuit::SubCircuitGroup::Series(left, right) => {
                let natural_left = left.layout_size();
                let natural_right = right.layout_size();
                let left_width = proportion(size.0, natural_left.0, natural_left.0 + natural_right.0);
                let left_size = Size(left_width, size.1);
                let right_size = Size(size.0 - left_width, size.1);
                left.draw(left_size, ctx.moved(-(halve(left_size.0)), 0), drawer);
                right.draw(right_size, ctx.moved(halve(right_size.0), 0), drawer);
            },
            circuit::SubCircuitGroup::Parallel(top, bottom) => {
                let natural_top = top.layout_size();
                let natural_bottom = bottom.layout_size();
                let width = size.0 - 2 * LEAD_IN;
                let top_height = proportion(size.1, natural_top.1, natural_top.1 + natural_bottom.1);
                let top_size = Size(width, top_height);
                let bottom_size = Size(width, size.1 - top_height);
                let reach = halve(width);
                let up = -(halve(top_size.1));
                let down = halve(bottom_size.1);
                top.draw(top_size, ctx.moved(0, up), drawer);
                bottom.draw(bottom_size, ctx.moved(0, down), drawer);
                drawer.wire(ctx.moved(-reach, up).position, ctx.moved(-reach, down).position);
                drawer.wire(ctx.moved(reach, up).position, ctx.moved(reach, down).position);
                drawer.junction(ctx.moved(-reach, 0).position);
                drawer.junction(ctx.moved(reach, 0).position);
                drawer.wire(
                    ctx.moved(-reach - LEAD_IN as i64, 0).position,
                    ctx.moved(-reach, 0).position,
                );
                drawer.wire(
                    ctx.moved(reach + LEAD_IN as i64, 0).position,
                    ctx.moved(reach, 0).position,
                );
            },
        }
    }
}

impl Draw for circuit::SubCircuit<'_> {
    open spec fn placement(&self, size: Extent, frame: Frame) -> Seq<PrimitiveView>
        decreases self,
    {
        match self {
            circuit::SubCircuit::Element(element) => element.placement(size, frame),
            circuit::SubCircuit::Group(group) => group.placement(size, frame),
        }
    }

    open spec fn drawable(&self, size: Extent, frame: Frame) -> bool
        decreases self,
    {
        match self {
            circuit::SubCircuit::Element(element) => element.drawable(size, frame),
            circuit::SubCircuit::Group(group) => group.drawable(size, frame),
        }
    }

    fn can_draw(&self, size: Size, ctx: Context) -> (possible: bool)
        decreases self,
    {
        match self {
            circuit::SubCircuit::Element(element) => element.can_draw(size, ctx),
            circuit::SubCircuit::Group(group) => group.can_draw(size, ctx),
        }
    }

    fn draw<D: Drawer>(&self, size: Size, ctx: Context, drawer: &mut D)
        decreases self,
    {
        match self {
            circuit::SubCircuit::Element(element) => element.draw(size, ctx, drawer),
            circuit::SubCircuit::Group(group) => group.draw(size, ctx, drawer),
        }
    }
}

/// Where link `index` of a chain begins along the chain's axis, in a chain
/// allocated the width `width`: the first link begins half that width
/// before the origin, and every link takes twice the half of its natural
/// width.
pub open spec fn link_start(links: Seq<circuit::TwoportLink<'_>>, width: int, index: int) -> int
    decreases index,
{
    if index <= 0 {
        -half(width)
    } else {
        link_start(links, width, index - 1) + 2 * half(links[index - 1].natural_size().width)
    }
}

/// What placing link `index` of a chain emits.
///
/// A series link is drawn on the top rail, in the link's width and the
/// chain's whole height, followed by a wire on the bottom rail under it. A
/// shunt link is drawn turned by a quarter between the rails, after the
/// wires that join it to its neighbours: top and bottom wire to the left
/// where a link precedes it, to the right where one follows, and a junction
/// on each rail where both do.
pub open spec fn link_placement(
    links: Seq<circuit::TwoportLink<'_>>,
    index: int,
    size: Extent,
    frame: Frame,
) -> Seq<PrimitiveView> {
    let width = links[index].natural_size().width;
    let reach = half(width);
    let centre = link_start(links, size.width, index) + reach;
    let top = -half(size.height);
    let bottom = half(size.height);
    match links[index] {
        circuit::TwoportLink::Series(circuit) => circuit.placement(
            Extent { width, height: size.height },
            frame.shifted(centre, top),
        ) + seq![
            PrimitiveView::Wire {
                from: frame.shifted(centre - reach, bottom).origin,
                to: frame.shifted(centre + reach, bottom).origin,
            },
        ],
        circuit::TwoportLink::Shunt(circuit) => {
            let left = index > 0;
            let right = index + 1 < links.len();
            (if left {
                seq![
                    PrimitiveView::Wire {
                        from: frame.shifted(centre - reach, top).origin,
                        to: frame.shifted(centre, top).origin,
                    },
                    PrimitiveView::Wire {
                        from: frame.shifted(centre - reach, bottom).origin,
                        to: frame.shifted(centre, bottom).origin,
                    },
                ]
            } else {
                Seq::empty()
            }) + (if right {
                seq![
                    PrimitiveView::Wire {
                        from: frame.shifted(centre, top).origin,
                        to: frame.shifted(centre + reach, top).origin,
                    },
                    PrimitiveView::Wire {
                        from: frame.shifted(centre, bottom).origin,
                        to: frame.shifted(centre + reach, bottom).origin,
                    },
                ]
            } else {
                Seq::empty()
            }) + (if left && right {
                seq![
                    PrimitiveView::Junction { at: frame.shifted(centre, top).origin },
                    PrimitiveView::Junction { at: frame.shifted(centre, bottom).origin },
                ]
            } else {
                Seq::empty()
            }) + circuit.placement(
                Extent { width: size.height, height: width },
                frame.shifted(centre, 0).turned(),
            )
        },
    }
}

/// Placing link `index` of a chain stays within what a `Position` holds.
pub open spec fn link_drawable(
    links: Seq<circuit::TwoportLink<'_>>,
    index: int,
    size: Extent,
    frame: Frame,
) -> bool {
    let width = links[index].natural_size().width;
    let reach = half(width);
    let centre = link_start(links, size.width, index) + reach;
    let top = -half(size.height);
    let bottom = half(size.height);
    &&& frame.shifted(centre - reach, top).fits()
    &&& frame.shifted(centre, top).fits()
    &&& frame.shifted(centre + reach, top).fits()
    &&& frame.shifted(centre - reach, bottom).fits()
    &&& frame.shifted(centre, bottom).fits()
    &&& frame.shifted(centre + reach, bottom).fits()
    &&& frame.shifted(centre, 0).fits()
    &&& match links[index] {
        circuit::TwoportLink::Series(circuit) => circuit.drawable(
            Extent { width, height: size.height },
            frame.shifted(centre, top),
        ),
        circuit::TwoportLink::Shunt(circuit) => circuit.drawable(
            Extent { width: size.height, height: width },
            frame.shifted(centre, 0).turned(),
        ),
    }
}

/// What placing the first `count` links of a chain emits.
pub open spec fn links_placement(
    links: Seq<circuit::TwoportLink<'_>>,
    count: int,
    size: Extent,
    frame: Frame,
) -> Seq<PrimitiveView>
    decreases count,
{
    if count <= 0 {
        Seq::empty()
    } else {
        links_placement(links, count - 1, size, frame) + link_placement(links, count - 1, size, frame)
    }
}

/// Tells whether link `index` of a chain can be placed, and where the next
/// link begins.
fn can_draw_link(links: &Vec<circuit::TwoportLink>, index: usize, start: i64, size: Size, ctx: Context) -> (next:
    Option<i64>)
    requires
        index < links@.len(),
        links@[index as int].natural_size().fits(),
        start == link_start(links@, size@.width, index as int),
        -0x2_0000_0000 <= start <= 0x2_0000_0000,
    ensures
        match next {
            Some(next) => {
                &&& link_drawable(links@, index as int, size@, ctx@)
                &&& next == link_start(links@, size@.width, index as int + 1)
            },
            None => !link_drawable(links@, index as int, size@, ctx@),
        },
{
    let top_line: i64 = -(halve(size.1));
    let bottom_line: i64 = halve(size.1);
    let link = &links[index];
    let requested = link.layout_size();
    let reach = halve(requested.0);
    let offset = start + reach;
    let rails = ctx.try_moved(offset - reach, top_line).is_some() && ctx.try_moved(
        offset,
        top_line,
    ).is_some() && ctx.try_moved(offset + reach, top_line).is_some() && ctx.try_moved(
        offset - reach,
        bottom_line,
    ).is_some() && ctx.try_moved(offset, bottom_line).is_some() && ctx.try_moved(
        offset + reach,
        bottom_line,
    ).is_some() && ctx.try_moved(offset, 0).is_some();
    if !rails {
        return None;
    }
    let inner = match link {
        circuit::TwoportLink::Series(circuit) => circuit.can_draw(
            Size(requested.0, size.1),
            ctx.moved(offset, top_line),
        ),
        circuit::TwoportLink::Shunt(circuit) => circuit.can_draw(
            Size(size.1, requested.0),
            ctx.moved(offset, 0).rotate(),
        ),
    };
    if inner {
        Some(offset + reach)
    } else {
        None
    }
}

/// Places link `index` of a chain, and tells where the next link begins.
fn draw_link<D: Drawer>(
    links: &Vec<circuit::TwoportLink>,
    index: usize,
    start: i64,
    size: Size,
    ctx: Context,
    drawer: &mut D,
) -> (next: i64)
    requires
        index < links@.len(),
        links@[index as int].natural_size().fits(),
        start == link_start(links@, size@.width, index as int),
        -0x2_0000_0000 <= start <= 0x2_0000_0000,
        link_drawable(links@, index as int, size@, ctx@),
    ensures
        next == link_start(links@, size@.width, index as int + 1),
        final(drawer).emitted() == old(drawer).emitted() + link_placement(
            links@,
            index as int,
            size@,
            ctx@,
        ),
{
    let top_line: i64 = -(halve(size.1));
    let bottom_line: i64 = halve(size.1);
    let link = &links[index];
    let requested = link.layout_size();
    let reach = halve(requested.0);
    let offset = start + reach;
    match link {
        circuit::TwoportLink::Series(circuit) => {
            circuit.draw(Size(requested.0, size.1), ctx.moved(offset, top_line), drawer);
            drawer.wire(
                ctx.moved(offset - reach, bottom_line).position,
                ctx.moved(offset + reach, bottom_line).position,
            );
        },
        circuit::TwoportLink::Shunt(circuit) => {
            let left_exists = index != 0;
            let right_exists = index < links.len() - 1;
            if left_exists {
                drawer.wire(
                    ctx.moved(offset - reach, top_line).position,
                    ctx.moved(offset, top_line).position,
                );
                drawer.wire(
                    ctx.moved(offset - reach, bottom_line).position,
                    ctx.moved(offset, bottom_line).position,
                );
            }
            if right_exists {
                drawer.wire(
                    ctx.moved(offset, top_line).position,
                    ctx.moved(offset + reach, top_line).position,
                );
                drawer.wire(
                    ctx.moved(offset, bottom_line).position,
                    ctx.moved(offset + reach, bottom_line).position,
                );
            }
            if left_exists && right_exists {
                drawer.junction(ctx.moved(offset, top_line).position);
                drawer.junction(ctx.moved(offset, bottom_line).position);
            }
            circuit.draw(Size(size.1, requested.0), ctx.moved(offset, 0).rotate(), drawer);
        },
    }
    assert(drawer.emitted() =~= old(drawer).emitted() + link_placement(
        links@,
        index as int,
        size@,
        ctx@,
    ));
    offset + reach
}

/// Twice the half of what is not negative is no more than it.
pub proof fn lemma_half_twice(a: int)
    requires
        0 <= a,
    ensures
        0 <= 2 * half(a) <= a,
{
}

/// A twoport places its links one after the other along its axis, each in
/// its natural width, beginning half the allocated width before the origin.
/// The top rail lies half the allocated height above the axis, the bottom
/// rail as much below.
impl Draw for circuit::Twoport<'_> {
    open spec fn placement(&self, size: Extent, frame: Frame) -> Seq<PrimitiveView> {
        links_placement(self.links@, self.links@.len() as int, size, frame)
    }

    open spec fn drawable(&self, size: Extent, frame: Frame) -> bool {
        &&& self.natural_size().fits()
        &&& forall|index: int|
            0 <= index < self.links@.len() ==> #[trigger] link_drawable(self.links@, index, size, frame)
    }

    fn can_draw(&self, size: Size, ctx: Context) -> (possible: bool) {
        if self.checked_layout_size().is_none() {
            return false;
        }
        let mut start: i64 = -(halve(size.0));
        let mut i: usize = 0;
        while i < self.links.len()
            invariant
                0 <= i <= self.links@.len(),
                self.natural_size().fits(),
                start == link_start(self.links@, size@.width, i as int),
                -half(size@.width) <= start <= -half(size@.width) + links_size(self.links@, i as int).width,
                forall|index: int|
                    0 <= index < i ==> #[trigger] link_drawable(self.links@, index, size@, ctx@),
            decreases self.links@.len() - i,
        {
            proof {
                lemma_links_size_grows(self.links@, i as int, i as int + 1);
                lemma_links_size_grows(self.links@, i as int + 1, self.links@.len() as int);
                lemma_link_size_at_least_element(&self.links@[i as int]);
                lemma_half_twice(self.links@[i as int].natural_size().width);
            }
            start = match can_draw_link(&self.links, i, start, size, ctx) {
                Some(next) => next,
                None => return false,
            };
            i = i + 1;
        }
        true
    }

    fn draw<D: Drawer>(&self, size: Size, ctx: Context, drawer: &mut D) {
        let ghost before = drawer.emitted();
        let mut start: i64 = -(halve(size.0));
        let mut i: usize = 0;
        while i < self.links.len()
            invariant
                0 <= i <= self.links@.len(),
                self.drawable(size@, ctx@),
                start == link_start(self.links@, size@.width, i as int),
                -half(size@.width) <= start <= -half(size@.width) + links_size(self.links@, i as int).width,
                drawer.emitted() == before + links_placement(self.links@, i as int, size@, ctx@),
            decreases self.links@.len() - i,
        {
            proof {
                lemma_links_size_grows(self.links@, i as int, i as int + 1);
                lemma_links_size_grows(self.links@, i as int + 1, self.links@.len() as int);
                lemma_link_size_at_least_element(&self.links@[i as int]);
                lemma_half_twice(self.links@[i as int].natural_size().width);
            }
            start = draw_link(&self.links, i, start, size, ctx, drawer);
            i = i + 1;
            assert(drawer.emitted() =~= before + links_placement(self.links@, i as int, size@, ctx@));
        }
    }
}

impl Draw for circuit::Document<'_> {
    open spec fn placement(&self, size: Extent, frame: Frame) -> Seq<PrimitiveView> {
        match self {
            circuit::Document::Circuit(circuit) => circuit.placement(size, frame),
            circuit::Document::Twoport(twoport) => twoport.placement(size, frame),
        }
    }

    open spec fn drawable(&self, size: Extent, frame: Frame) -> bool {
        match self {
            circuit::Document::Circuit(circuit) => circuit.drawable(size, frame),
            circuit::Document::Twoport(twoport) => twoport.drawable(size, frame),
        }
    }

    fn can_draw(&self, size: Size, ctx: Context) -> (possible: bool) {
        match self {
            circuit::Document::Circuit(circuit) => circuit.can_draw(size, ctx),
            circuit::Document::Twoport(twoport) => twoport.can_draw(size, ctx),
        }
    }

    fn draw<D: Drawer>(&self, size: Size, ctx: Context, drawer: &mut D) {
        match self {
            circuit::Document::Circuit(circuit) => circuit.draw(size, ctx, drawer),
            circuit::Document::Twoport(twoport) => twoport.draw(size, ctx, drawer),
        }
    }
}

/// Half of `a`, rounded toward zero.
fn halve(a: i32) -> (h: i64)
    ensures
        h == half(a as int),
        -0x4000_0000 <= h <= 0x4000_0000,
{
    (a / 2) as i64
}

/// The share of `total` that falls to `part` out of `whole`.
fn proportion(total: i32, part: i32, whole: i32) -> (portion: i32)
    requires
        0 <= part <= whole,
        0 < whole,
    ensures
        portion == share(total as int, part as int, whole as int),
        total >= 0 ==> 0 <= portion <= total,
        total <= 0 ==> total <= portion <= 0,
{
    proof {
        lemma_share_within(total as int, part as int, whole as int);
        lemma_product_within(total as int, part as int);
    }
    let product: i64 = (total as i64) * (part as i64);
    (product / (whole as i64)) as i32
}

/// What a series group allocates to its two children adds up to its own
/// allocated width, the right child taking what the rounded share of the
/// left one leaves; both children keep the group's allocated height.
pub proof fn lemma_series_split_conserves(size: Extent, left: Extent, right: Extent)
    requires
        left.width > 0,
        right.width > 0,
    ensures
        ({
            let (first, last) = series_split(size, left, right);
            &&& first.width + last.width == size.width
            &&& first.width == share(size.width, left.width, left.width + right.width)
            &&& first.height == size.height
            &&& last.height == size.height
            &&& size.width >= 0 ==> 0 <= first.width <= size.width && 0 <= last.width <= size.width
        }),
{
    lemma_share_within(size.width, left.width, left.width + right.width);
}

/// What a parallel group allocates to its two children adds up to its own
/// allocated height, the bottom child taking what the rounded share of the
/// top one leaves; both children get the group's allocated width less the
/// two stubs.
pub proof fn lemma_parallel_split_conserves(size: Extent, top: Extent, bottom: Extent)
    requires
        top.height > 0,
        bottom.height > 0,
    ensures
        ({
            let (first, last) = parallel_split(size, top, bottom);
            &&& first.height + last.height == size.height
            &&& first.height == share(size.height, top.height, top.height + bottom.height)
            &&& first.width == size.width - 2 * LEAD_IN
            &&& last.width == size.width - 2 * LEAD_IN
            &&& size.height >= 0 ==> 0 <= first.height <= size.height && 0 <= last.height
                <= size.height
        }),
{
    lemma_share_within(size.height, top.height, top.height + bottom.height);
}

/// Placing a node twice, in the same size and at the same context, emits
/// the same primitives in the same order, whatever the sinks held before.
pub proof fn lemma_placement_repeats<N: Draw>(
    node: &N,
    size: Extent,
    frame: Frame,
    first_before: Seq<PrimitiveView>,
    first_after: Seq<PrimitiveView>,
    second_before: Seq<PrimitiveView>,
    second_after: Seq<PrimitiveView>,
)
    requires
        first_after == first_before + node.placement(size, frame),
        second_after == second_before + node.placement(size, frame),
    ensures
        first_after.skip(first_before.len() as int) == second_after.skip(second_before.len() as int),
{
}

/// A share lies between nothing and the whole of what is shared.
pub proof fn lemma_share_within(total: int, part: int, whole: int)
    requires
        0 <= part <= whole,
        0 < whole,
    ensures
        total >= 0 ==> 0 <= share(total, part, whole) <= total,
        total <= 0 ==> total <= share(total, part, whole) <= 0,
{
    if total >= 0 {
        assert(total * part >= 0 && 0 <= (total * part) / whole <= total) by (nonlinear_arith)
            requires
                total >= 0,
                0 <= part <= whole,
                0 < whole,
        ;
    } else {
        assert(total * part <= 0 && 0 <= (-(total * part)) / whole <= -total) by (nonlinear_arith)
            requires
                total < 0,
                0 <= part <= whole,
                0 < whole,
        ;
    }
}

proof fn lemma_product_within(total: int, part: int)
    requires
        i32::MIN <= total <= i32::MAX,
        0 <= part <= i32::MAX,
    ensures
        i64::MIN <= total * part <= i64::MAX,
{
    assert(-0x4000_0000_0000_0000 <= total * part <= 0x4000_0000_0000_0000) by (nonlinear_arith)
        requires
            -0x8000_0000 <= total <= 0x8000_0000,
            0 <= part <= 0x8000_0000,
    ;
}

} // verus!
