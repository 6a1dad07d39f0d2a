//! A sink that draws into an SVG document.
//!
//! The drawer keeps what it is asked to draw, and the box that the glyphs
//! span. The finished document holds a group of shapes for every glyph,
//! around the glyph's own origin, moved to its position and turned by a
//! quarter where it is rotated; a path for every wire; a dot for every
//! junction. It takes its size from the box.
//!
//! The nodes of the `svg` crate are opaque here. What they hold has names:
//! the attributes of an element with their texts, and its children. The
//! declarations below say of every call into the crate what the crate's
//! source shows it to do to them.

use vstd::prelude::*;
use svg::node::element::path::Data;
use svg::node::element::{Circle, Path, Rectangle, SVG};
use svg::node::Value;
use vstd::string::StringExecFns;
use crate::draw::{half, Drawer, Glyph, Primitive, PrimitiveView, Recorder};
use crate::layout::{Extent, Point, Position, Size};

verus! {

/// `svg::node::element::Group`, a `g` element.
#[verifier::external_type_specification]
#[verifier::external_body]
pub struct ExGroup(svg::node::element::Group);

/// `svg::node::element::Path`, a `path` element.
#[verifier::external_type_specification]
#[verifier::external_body]
pub struct ExPath(Path);

/// `svg::node::element::Rectangle`, a `rect` element.
#[verifier::external_type_specification]
#[verifier::external_body]
pub struct ExRectangle(Rectangle);

/// `svg::node::element::Circle`, a `circle` element.
#[verifier::external_type_specification]
#[verifier::external_body]
pub struct ExCircle(Circle);

/// `svg::node::element::Text`, a `text` element.
#[verifier::external_type_specification]
#[verifier::external_body]
pub struct ExLabel(svg::node::element::Text);

/// `svg::node::Text`, a text node.
#[verifier::external_type_specification]
#[verifier::external_body]
pub struct ExText(svg::node::Text);

/// `svg::node::element::SVG`, the document.
#[verifier::external_type_specification]
#[verifier::external_body]
pub struct ExDocument(SVG);

/// `svg::node::element::path::Data`, the data of a path.
#[verifier::external_type_specification]
#[verifier::external_body]
pub struct ExData(Data);

/// `svg::node::element::path::Command`, one command of the data of a path.
#[verifier::external_type_specification]
#[verifier::external_body]
pub struct ExCommand(svg::node::element::path::Command);

/// `svg::node::Value`, the value of an attribute.
#[verifier::external_type_specification]
#[verifier::external_body]
pub struct ExValue(Value);

/// A node of a document, as plain values: an element with its name, its
/// attributes and its children, or a run of text.
pub enum Markup {
    Element { name: Seq<char>, attributes: Map<Seq<char>, Seq<char>>, children: Seq<Markup> },
    Text(Seq<char>),
}

/// The text that a value of an attribute holds.
pub uninterp spec fn value_text(value: Value) -> Seq<char>;

/// The digit for a number below ten.
pub open spec fn digit(d: int) -> char {
    if d == 0 {
        '0'
    } else if d == 1 {
        '1'
    } else if d == 2 {
        '2'
    } else if d == 3 {
        '3'
    } else if d == 4 {
        '4'
    } else if d == 5 {
        '5'
    } else if d == 6 {
        '6'
    } else if d == 7 {
        '7'
    } else if d == 8 {
        '8'
    } else {
        '9'
    }
}

/// The digits of a natural number, without leading zeros.
pub open spec fn digits(n: nat) -> Seq<char>
    decreases n,
{
    if n < 10 {
        seq![digit(n as int)]
    } else {
        digits(n / 10).push(digit((n % 10) as int))
    }
}

/// The text of an integer: its digits, behind a minus sign where it is
/// negative.
pub open spec fn decimal(n: int) -> Seq<char> {
    if n < 0 {
        seq!['-'] + digits((-n) as nat)
    } else {
        digits(n as nat)
    }
}

/// The texts of the commands that the data of a path holds, in their order.
pub uninterp spec fn data_commands(data: Data) -> Seq<Seq<char>>;

/// The text of the command that `Data::move_to` adds for a point.
pub uninterp spec fn move_text(x: int, y: int) -> Seq<char>;

/// The text of the command that `Data::line_to` adds for a point.
pub uninterp spec fn line_text(x: int, y: int) -> Seq<char>;

/// The text of the command that `Data::elliptical_arc_to` adds for the two
/// radii, the rotation, the two flags and the end point.
pub uninterp spec fn arc_text(rx: int, ry: int, rotation: int, large: int, sweep: int, x: int, y: int) -> Seq<
    char,
>;

/// The text that a text node holds.
pub uninterp spec fn node_content(node: svg::node::Text) -> Seq<char>;

/// The attributes that a `path` element holds, with their texts.
pub uninterp spec fn path_attributes(path: Path) -> Map<Seq<char>, Seq<char>>;

/// The children that a `path` element holds, in their order.
pub uninterp spec fn path_children(path: Path) -> Seq<Markup>;

/// The attributes that a `rect` element holds, with their texts.
pub uninterp spec fn rectangle_attributes(rectangle: Rectangle) -> Map<Seq<char>, Seq<char>>;

/// The children that a `rect` element holds, in their order.
pub uninterp spec fn rectangle_children(rectangle: Rectangle) -> Seq<Markup>;

/// The attributes that a `circle` element holds, with their texts.
pub uninterp spec fn circle_attributes(circle: Circle) -> Map<Seq<char>, Seq<char>>;

/// The children that a `circle` element holds, in their order.
pub uninterp spec fn circle_children(circle: Circle) -> Seq<Markup>;

/// The attributes that a `text` element holds, with their texts.
pub uninterp spec fn label_attributes(label: svg::node::element::Text) -> Map<Seq<char>, Seq<char>>;

/// The children that a `text` element holds, in their order.
pub uninterp spec fn label_children(label: svg::node::element::Text) -> Seq<Markup>;

/// The attributes that a `g` element holds, with their texts.
pub uninterp spec fn group_attributes(group: svg::node::element::Group) -> Map<Seq<char>, Seq<char>>;

/// The children that a `g` element holds, in their order.
pub uninterp spec fn group_children(group: svg::node::element::Group) -> Seq<Markup>;

/// The attributes that a document holds, with their texts.
pub uninterp spec fn document_attributes(document: SVG) -> Map<Seq<char>, Seq<char>>;

/// The children that a document holds, in their order.
pub uninterp spec fn document_children(document: SVG) -> Seq<Markup>;

/// The text of the transform that moves by `x` and `y` and turns by the
/// degrees.
pub open spec fn placed_text(x: int, y: int, degrees: int) -> Seq<char> {
    "translate("@ + decimal(x) + ","@ + decimal(y) + ") rotate("@ + decimal(degrees) + ")"@
}

/// The text of the transform that moves by `x` and `y`.
pub open spec fn moved_text(x: int, y: int) -> Seq<char> {
    "translate("@ + decimal(x) + ","@ + decimal(y) + ")"@
}

/// The text of the view box of the width and the height, from the origin.
pub open spec fn boxed_text(width: int, height: int) -> Seq<char> {
    "0 0 "@ + decimal(width) + " "@ + decimal(height)
}

/// No attribute at all.
pub open spec fn no_attributes() -> Map<Seq<char>, Seq<char>> {
    Map::empty()
}

/// No child at all.
pub open spec fn no_children() -> Seq<Markup> {
    Seq::empty()
}

/// An element without children.
pub open spec fn leaf(name: Seq<char>, attributes: Map<Seq<char>, Seq<char>>) -> Markup {
    Markup::Element { name, attributes, children: Seq::empty() }
}

/// What a `path` element stands for.
pub open spec fn path_markup(path: Path) -> Markup {
    Markup::Element { name: "path"@, attributes: path_attributes(path), children: path_children(path) }
}

/// What a `rect` element stands for.
pub open spec fn rectangle_markup(rectangle: Rectangle) -> Markup {
    Markup::Element {
        name: "rect"@,
        attributes: rectangle_attributes(rectangle),
        children: rectangle_children(rectangle),
    }
}

/// What a `circle` element stands for.
pub open spec fn circle_markup(circle: Circle) -> Markup {
    Markup::Element {
        name: "circle"@,
        attributes: circle_attributes(circle),
        children: circle_children(circle),
    }
}

/// What a `text` element stands for.
pub open spec fn label_markup(label: svg::node::element::Text) -> Markup {
    Markup::Element { name: "text"@, attributes: label_attributes(label), children: label_children(label) }
}

/// What a `g` element stands for.
pub open spec fn group_markup(group: svg::node::element::Group) -> Markup {
    Markup::Element { name: "g"@, attributes: group_attributes(group), children: group_children(group) }
}

/// What a document stands for.
pub open spec fn document_markup(document: SVG) -> Markup {
    Markup::Element {
        name: "svg"@,
        attributes: document_attributes(document),
        children: document_children(document),
    }
}

/// `Value::from` of an integer: the value holds the integer's text, which
/// is what `to_string` gives.
#[verifier::external_body]
fn number(n: i64) -> (value: Value)
    ensures
        value_text(value) == decimal(n as int),
{
    Value::from(n)
}

/// `Value::from` of a string: the value holds the string.
#[verifier::external_body]
fn text(content: &str) -> (value: Value)
    ensures
        value_text(value) == content@,
{
    Value::from(content)
}

/// `Value::from` of the data of a path: the value holds the texts of the
/// commands, with a space between one and the next.
#[verifier::external_body]
fn path_data(data: Data) -> (value: Value)
    ensures
        value_text(value) == spaced(data_commands(data)),
{
    Value::from(data)
}

/// `Data::new`: data without a command.
pub assume_specification[ Data::new ]() -> (data: Data)
    ensures
        data_commands(data) == Seq::<Seq<char>>::empty(),
;

/// `Data::move_to` of a point: one more command, behind the others.
#[verifier::external_body]
fn move_to(data: Data, x: i32, y: i32) -> (more: Data)
    ensures
        data_commands(more) == data_commands(data).push(move_text(x as int, y as int)),
{
    data.move_to((x, y))
}

/// `Data::line_to` of a point: one more command, behind the others.
#[verifier::external_body]
fn line_to(data: Data, x: i32, y: i32) -> (more: Data)
    ensures
        data_commands(more) == data_commands(data).push(line_text(x as int, y as int)),
{
    data.line_to((x, y))
}

/// `Data::elliptical_arc_to` of the seven numbers of an arc: one more
/// command, behind the others.
#[verifier::external_body]
fn arc_to(data: Data, rx: i32, ry: i32, rotation: i32, large: i32, sweep: i32, x: i32, y: i32) -> (more: Data)
    ensures
        data_commands(more) == data_commands(data).push(
            arc_text(rx as int, ry as int, rotation as int, large as int, sweep as int, x as int, y as int),
        ),
{
    data.elliptical_arc_to((rx, ry, rotation, large, sweep, x, y))
}

/// `node::Text::new`: a text node that holds the content.
#[verifier::external_body]
fn content_node(content: &str) -> (node: svg::node::Text)
    ensures
        node_content(node) == content@,
{
    svg::node::Text::new(content)
}

/// `Path::new`: a `path` element without attributes or children.
pub assume_specification[ Path::new ]() -> (path: Path)
    ensures
        path_attributes(path) == no_attributes(),
        path_children(path) == no_children(),
;

/// `Path::set`: the attribute is assigned the value's text; the others and
/// the children stay.
#[verifier::external_body]
fn path_set(path: Path, name: &str, value: Value) -> (set: Path)
    ensures
        path_attributes(set) == path_attributes(path).insert(name@, value_text(value)),
        path_children(set) == path_children(path),
{
    path.set(name, value)
}

/// `Rectangle::new`: a `rect` element without attributes or children.
pub assume_specification[ Rectangle::new ]() -> (rectangle: Rectangle)
    ensures
        rectangle_attributes(rectangle) == no_attributes(),
        rectangle_children(rectangle) == no_children(),
;

/// `Rectangle::set`: the attribute is assigned the value's text; the others
/// and the children stay.
#[verifier::external_body]
fn rectangle_set(rectangle: Rectangle, name: &str, value: Value) -> (set: Rectangle)
    ensures
        rectangle_attributes(set) == rectangle_attributes(rectangle).insert(name@, value_text(value)),
        rectangle_children(set) == rectangle_children(rectangle),
{
    rectangle.set(name, value)
}

/// `Circle::new`: a `circle` element without attributes or children.
pub assume_specification[ Circle::new ]() -> (circle: Circle)
    ensures
        circle_attributes(circle) == no_attributes(),
        circle_children(circle) == no_children(),
;

/// `Circle::set`: the attribute is assigned the value's text; the others and
/// the children stay.
#[verifier::external_body]
fn circle_set(circle: Circle, name: &str, value: Value) -> (set: Circle)
    ensures
        circle_attributes(set) == circle_attributes(circle).insert(name@, value_text(value)),
        circle_children(set) == circle_children(circle),
{
    circle.set(name, value)
}

/// `element::Text::new`: a `text` element without attributes or children.
pub assume_specification[ svg::node::element::Text::new ]() -> (label: svg::node::element::Text)
    ensures
        label_attributes(label) == no_attributes(),
        label_children(label) == no_children(),
;

/// `element::Text::set`: the attribute is assigned the value's text; the
/// others and the children stay.
#[verifier::external_body]
fn label_set(label: svg::node::element::Text, name: &str, value: Value) -> (set: svg::node::element::Text)
    ensures
        label_attributes(set) == label_attributes(label).insert(name@, value_text(value)),
        label_children(set) == label_children(label),
{
    label.set(name, value)
}

/// `element::Text::add` of a text node: the node is the last child; the
/// other children and the attributes stay.
#[verifier::external_body]
fn label_add(label: svg::node::element::Text, node: svg::node::Text) -> (more: svg::node::element::Text)
    ensures
        label_children(more) == label_children(label).push(Markup::Text(node_content(node))),
        label_attributes(more) == label_attributes(label),
{
    label.add(node)
}

/// `Group::new`: a `g` element without attributes or children.
pub assume_specification[ svg::node::element::Group::new ]() -> (group: svg::node::element::Group)
    ensures
        group_attributes(group) == no_attributes(),
        group_children(group) == no_children(),
;

/// `Group::set`: the attribute is assigned the value's text; the others and
/// the children stay.
#[verifier::external_body]
fn group_set(group: svg::node::element::Group, name: &str, value: Value) -> (set: svg::node::element::Group)
    ensures
        group_attributes(set) == group_attributes(group).insert(name@, value_text(value)),
        group_children(set) == group_children(group),
{
    group.set(name, value)
}

/// `Group::add` of a `path` element: the element is the last child; the
/// other children and the attributes stay.
#[verifier::external_body]
fn group_add_path(group: svg::node::element::Group, path: Path) -> (more: svg::node::element::Group)
    ensures
        group_children(more) == group_children(group).push(path_markup(path)),
        group_attributes(more) == group_attributes(group),
{
    group.add(path)
}

/// `Group::add` of a `rect` element: the element is the last child; the
/// other children and the attributes stay.
#[verifier::external_body]
fn group_add_rectangle(group: svg::node::element::Group, rectangle: Rectangle) -> (more:
    svg::node::element::Group)
    ensures
        group_children(more) == group_children(group).push(rectangle_markup(rectangle)),
        group_attributes(more) == group_attributes(group),
{
    group.add(rectangle)
}

/// `Group::add` of a `circle` element: the element is the last child; the
/// other children and the attributes stay.
#[verifier::external_body]
fn group_add_circle(group: svg::node::element::Group, circle: Circle) -> (more: svg::node::element::Group)
    ensures
        group_children(more) == group_children(group).push(circle_markup(circle)),
        group_attributes(more) == group_attributes(group),
{
    group.add(circle)
}

/// `Group::add` of a `text` element: the element is the last child; the
/// other children and the attributes stay.
#[verifier::external_body]
fn group_add_label(group: svg::node::element::Group, label: svg::node::element::Text) -> (more:
    svg::node::element::Group)
    ensures
        group_children(more) == group_children(group).push(label_markup(label)),
        group_attributes(more) == group_attributes(group),
{
    group.add(label)
}

/// `Group::add` of a `g` element: the element is the last child; the other
/// children and the attributes stay.
#[verifier::external_body]
fn group_add_group(group: svg::node::element::Group, inner: svg::node::element::Group) -> (more:
    svg::node::element::Group)
    ensures
        group_children(more) == group_children(group).push(group_markup(inner)),
        group_attributes(more) == group_attributes(group),
{
    group.add(inner)
}

/// `SVG::new`: a document without children, whose one attribute names the
/// namespace.
pub assume_specification[ SVG::new ]() -> (document: SVG)
    ensures
        document_attributes(document) == no_attributes().insert(
            "xmlns"@,
            "http://www.w3.org/2000/svg"@,
        ),
        document_children(document) == no_children(),
;

/// `SVG::set`: the attribute is assigned the value's text; the others and
/// the children stay.
#[verifier::external_body]
fn document_set(document: SVG, name: &str, value: Value) -> (set: SVG)
    ensures
        document_attributes(set) == document_attributes(document).insert(name@, value_text(value)),
        document_children(set) == document_children(document),
{
    document.set(name, value)
}

/// `SVG::add` of a `g` element: the element is the last child; the other
/// children and the attributes stay.
#[verifier::external_body]
fn document_add(document: SVG, group: svg::node::element::Group) -> (more: SVG)
    ensures
        document_children(more) == document_children(document).push(group_markup(group)),
        document_attributes(more) == document_attributes(document),
{
    document.add(group)
}

/// `format!` of the transform that moves a glyph to its place and turns it
/// by the degrees.
#[verifier::external_body]
fn placed(x: i32, y: i32, degrees: i32) -> (transform: String)
    ensures
        transform@ == placed_text(x as int, y as int, degrees as int),
{
    format!("translate({},{}) rotate({})", x, y, degrees)
}

/// `format!` of the transform that moves the drawing into the canvas.
#[verifier::external_body]
fn moved(x: i64, y: i64) -> (transform: String)
    ensures
        transform@ == moved_text(x as int, y as int),
{
    format!("translate({},{})", x, y)
}

/// `format!` of the view box of a canvas of the width and the height.
#[verifier::external_body]
fn boxed(width: i64, height: i64) -> (view_box: String)
    ensures
        view_box@ == boxed_text(width as int, height as int),
{
    format!("0 0 {} {}", width, height)
}

/// The margin left around the drawing on every side.
pub const MARGIN: i64 = 30;

/// One step of an outline.
#[derive(Debug, Copy, Clone, PartialEq, Eq, Structural)]
pub enum Segment {
    /// Begins at a point.
    MoveTo(i32, i32),
    /// Goes straight to a point.
    LineTo(i32, i32),
    /// Goes to a point along an arc of a circle of the radius, clockwise
    /// the short way.
    ArcTo { radius: i32, x: i32, y: i32 },
}

/// One shape of the drawing, in the coordinates of what holds it. Strokes
/// are black.
#[derive(Debug, PartialEq, Eq)]
pub enum Shape {
    /// An outline of the given stroke width, not filled.
    Outline { width: i32, segments: Vec<Segment> },
    /// A rectangle of stroke width 2, not filled.
    Rect { x: i32, y: i32, width: i32, height: i32 },
    /// A ring of stroke width 2, filled white or not at all.
    Ring { cx: i32, cy: i32, r: i32, filled: bool },
    /// A black dot.
    Dot { cx: i32, cy: i32, r: i32 },
    /// A text centred on a point and, where `turned`, turned back by a
    /// quarter.
    Label { text: String, x: i32, y: i32, turned: bool },
}

/// What a `Segment` stands for.
pub enum SegmentView {
    MoveTo(int, int),
    LineTo(int, int),
    ArcTo { radius: int, x: int, y: int },
}

/// What a `Shape` stands for.
pub enum ShapeView {
    Outline { width: int, segments: Seq<SegmentView> },
    Rect { x: int, y: int, width: int, height: int },
    Ring { cx: int, cy: int, r: int, filled: bool },
    Dot { cx: int, cy: int, r: int },
    Label { text: Seq<char>, x: int, y: int, turned: bool },
}

impl View for Segment {
    type V = SegmentView;

    open spec fn view(&self) -> SegmentView {
        match self {
            Segment::MoveTo(x, y) => SegmentView::MoveTo(*x as int, *y as int),
            Segment::LineTo(x, y) => SegmentView::LineTo(*x as int, *y as int),
            Segment::ArcTo { radius, x, y } => SegmentView::ArcTo {
                radius: *radius as int,
                x: *x as int,
                y: *y as int,
            },
        }
    }
}

impl View for Shape {
    type V = ShapeView;

    open spec fn view(&self) -> ShapeView {
        match self {
            Shape::Outline { width, segments } => ShapeView::Outline {
                width: *width as int,
                segments: Seq::new(segments@.len(), |i: int| segments@[i]@),
            },
            Shape::Rect { x, y, width, height } => ShapeView::Rect {
                x: *x as int,
                y: *y as int,
                width: *width as int,
                height: *height as int,
            },
            Shape::Ring { cx, cy, r, filled } => ShapeView::Ring {
                cx: *cx as int,
                cy: *cy as int,
                r: *r as int,
                filled: *filled,
            },
            Shape::Dot { cx, cy, r } => ShapeView::Dot { cx: *cx as int, cy: *cy as int, r: *r as int },
            Shape::Label { text, x, y, turned } => ShapeView::Label {
                text: text@,
                x: *x as int,
                y: *y as int,
                turned: *turned,
            },
        }
    }
}

/// What a list of shapes stands for.
pub open spec fn shape_views(shapes: Seq<Shape>) -> Seq<ShapeView> {
    Seq::new(shapes.len(), |i: int| shapes[i]@)
}

/// A straight stroke of the given width from one point to another.
pub open spec fn line(from: Point, to: Point, width: int) -> ShapeView {
    ShapeView::Outline {
        width,
        segments: seq![SegmentView::MoveTo(from.x, from.y), SegmentView::LineTo(to.x, to.y)],
    }
}

/// The label of a glyph. In an upright glyph it stands `below` the axis, in
/// the middle; in a rotated glyph it stands `along` the axis, 5 to the
/// side, and is turned back by a quarter so that it reads as in an upright
/// one.
pub open spec fn caption(text: Seq<char>, rotated: bool, along: int, below: int) -> ShapeView {
    ShapeView::Label {
        text,
        x: if rotated { along } else { 0 },
        y: if rotated { 5 } else { below },
        turned: rotated,
    }
}

/// The shapes of a glyph that spans `size` along its own axis, around its
/// own origin: the symbol in the middle, a lead from either end of the span
/// to the symbol, and the label.
pub open spec fn glyph_shapes(kind: Glyph, label: Seq<char>, size: Extent, rotated: bool) -> Seq<ShapeView> {
    let reach = half(size.width);
    let left = Point { x: -reach, y: 0 };
    let right = Point { x: reach, y: 0 };
    match kind {
        Glyph::Resistor => seq![
            line(left, Point { x: -35, y: 0 }, 2),
            ShapeView::Rect { x: -35, y: -10, width: 70, height: 20 },
            line(Point { x: 35, y: 0 }, right, 2),
            caption(label, rotated, 0, 4),
        ],
        Glyph::Capacitor => seq![
            line(left, Point { x: -5, y: 0 }, 2),
            line(Point { x: -5, y: -15 }, Point { x: -5, y: 15 }, 5),
            line(Point { x: 5, y: -15 }, Point { x: 5, y: 15 }, 5),
            line(Point { x: 5, y: 0 }, right, 2),
            caption(label, rotated, 30, 30),
        ],
        Glyph::Inductor => seq![
            ShapeView::Outline {
                width: 2,
                segments: seq![
                    SegmentView::MoveTo(-reach, 0),
                    SegmentView::LineTo(-40, 0),
                    SegmentView::ArcTo { radius: 10, x: -20, y: 0 },
                    SegmentView::ArcTo { radius: 10, x: 0, y: 0 },
                    SegmentView::ArcTo { radius: 10, x: 20, y: 0 },
                    SegmentView::ArcTo { radius: 10, x: 40, y: 0 },
                    SegmentView::LineTo(reach, 0),
                ],
            },
            caption(label, rotated, -25, -20),
        ],
        Glyph::VoltageSource => seq![
            line(left, Point { x: -5, y: 0 }, 2),
            line(Point { x: -5, y: -20 }, Point { x: -5, y: 20 }, 4),
            line(Point { x: 5, y: -10 }, Point { x: 5, y: 10 }, 4),
            line(Point { x: 5, y: 0 }, right, 2),
            caption(label, rotated, 30, 30),
        ],
        Glyph::CurrentSource => seq![
            line(left, Point { x: -25, y: 0 }, 2),
            ShapeView::Ring { cx: -10, cy: 0, r: 15, filled: false },
            ShapeView::Ring { cx: 10, cy: 0, r: 15, filled: false },
            line(Point { x: 25, y: 0 }, right, 2),
            caption(label, rotated, 30, 30),
        ],
        Glyph::Open => seq![
            ShapeView::Ring { cx: -reach, cy: 0, r: 5, filled: true },
            ShapeView::Ring { cx: reach, cy: 0, r: 5, filled: true },
            caption(label, rotated, 30, 30),
        ],
    }
}

/// A straight stroke of the given width from one point to another.
pub fn stroke(from: Position, to: Position, width: i32) -> (shape: Shape)
    ensures
        shape@ == line(from@, to@, width as int),
{
    let mut segments = Vec::new();
    segments.push(Segment::MoveTo(from.0, from.1));
    segments.push(Segment::LineTo(to.0, to.1));
    let shape = Shape::Outline { width, segments };
    assert(shape@->Outline_segments =~= line(from@, to@, width as int)->Outline_segments);
    shape
}

/// The shapes of a glyph that spans `size` along its own axis, with its
/// label.
pub fn shapes(kind: Glyph, label: &str, size: Size, rotate: bool) -> (shapes: Vec<Shape>)
    ensures
        shape_views(shapes@) == glyph_shapes(kind, label@, size@, rotate),
{
    let reach: i32 = size.0 / 2;
    let left = Position(-reach, 0);
    let right = Position(reach, 0);
    let mut shapes = Vec::new();
    match kind {
        Glyph::Resistor => {
            let element_width: i32 = 70;
            let element_height: i32 = 20;
            shapes.push(stroke(left, Position(-element_width / 2, 0), 2));
            shapes.push(
                Shape::Rect {
                    x: -element_width / 2,
                    y: -element_height / 2,
                    width: element_width,
                    height: element_height,
                },
            );
            shapes.push(stroke(Position(element_width / 2, 0), right, 2));
            shapes.push(SvgDrawer::label(label, rotate, 0, 4));
        },
        Glyph::Capacitor => {
            let element_width: i32 = 10;
            let element_height: i32 = 30;
            let plate_width: i32 = 5;
            shapes.push(stroke(left, Position(-element_width / 2, 0), 2));
            shapes.push(
                stroke(
                    Position(-element_width / 2, -element_height / 2),
                    Position(-element_width / 2, element_height / 2),
                    plate_width,
                ),
            );
            shapes.push(
                stroke(
                    Position(element_width / 2, -element_height / 2),
                    Position(element_width / 2, element_height / 2),
                    plate_width,
                ),
            );
            shapes.push(stroke(Position(element_width / 2, 0), right, 2));
            shapes.push(SvgDrawer::label(label, rotate, 30, 30));
        },
        Glyph::Inductor => {
            let element_width: i32 = 80;
            let radius: i32 = 10;
            let mut segments = Vec::new();
            segments.push(Segment::MoveTo(-reach, 0));
            segments.push(Segment::LineTo(-element_width / 2, 0));
            segments.push(Segment::ArcTo { radius, x: -element_width / 2 + radius * 2, y: 0 });
            segments.push(Segment::ArcTo { radius, x: -element_width / 2 + radius * 4, y: 0 });
            segments.push(Segment::ArcTo { radius, x: -element_width / 2 + radius * 6, y: 0 });
            segments.push(Segment::ArcTo { radius, x: -element_width / 2 + radius * 8, y: 0 });
            segments.push(Segment::LineTo(reach, 0));
            let coil = Shape::Outline { width: 2, segments };
            assert(coil@->Outline_segments =~= glyph_shapes(
                kind,
                label@,
                size@,
                rotate,
            )[0]->Outline_segments);
            shapes.push(coil);
            shapes.push(SvgDrawer::label(label, rotate, -25, -20));
        },
        Glyph::VoltageSource => {
            let element_width: i32 = 10;
            let element_height: i32 = 40;
            shapes.push(stroke(left, Position(-element_width / 2, 0), 2));
            shapes.push(
                stroke(
                    Position(-element_width / 2, -element_height / 2),
                    Position(-element_width / 2, element_height / 2),
                    4,
                ),
            );
            shapes.push(
                stroke(
                    Position(element_width / 2, -element_height / 4),
                    Position(element_width / 2, element_height / 4),
                    4,
                ),
            );
            shapes.push(stroke(Position(element_width / 2, 0), right, 2));
            shapes.push(SvgDrawer::label(label, rotate, 30, 30));
        },
        Glyph::CurrentSource => {
            let radius: i32 = 15;
            let offset: i32 = 10;
            shapes.push(stroke(left, Position(-(offset + radius), 0), 2));
            shapes.push(Shape::Ring { cx: -offset, cy: 0, r: radius, filled: false });
            shapes.push(Shape::Ring { cx: offset, cy: 0, r: radius, filled: false });
            shapes.push(stroke(Position(offset + radius, 0), right, 2));
            shapes.push(SvgDrawer::label(label, rotate, 30, 30));
        },
        Glyph::Open => {
            shapes.push(Shape::Ring { cx: -reach, cy: 0, r: 5, filled: true });
            shapes.push(Shape::Ring { cx: reach, cy: 0, r: 5, filled: true });
            shapes.push(SvgDrawer::label(label, rotate, 30, 30));
        },
    }
    shapes
}

/// A box of the plane, by its edges.
pub struct Bounds {
    pub min_x: int,
    pub max_x: int,
    pub min_y: int,
    pub max_y: int,
}

/// The smaller of two integers.
pub open spec fn lesser(a: int, b: int) -> int {
    if a <= b { a } else { b }
}

/// The larger of two integers.
pub open spec fn greater(a: int, b: int) -> int {
    if a >= b { a } else { b }
}

impl Bounds {
    /// The box grown to hold a glyph of `size` centred at `at`. A rotated
    /// glyph spans its height along the horizontal axis.
    pub open spec fn grown(self, at: Point, size: Extent, rotated: bool) -> Bounds {
        let span = if rotated { size.swapped() } else { size };
        Bounds {
            min_x: lesser(self.min_x, at.x - half(span.width)),
            max_x: greater(self.max_x, at.x + half(span.width)),
            min_y: lesser(self.min_y, at.y - half(span.height)),
            max_y: greater(self.max_y, at.y + half(span.height)),
        }
    }

    /// The size of the canvas that holds the box with its margin.
    pub open spec fn canvas(self) -> Extent {
        Extent {
            width: self.max_x - self.min_x + 2 * MARGIN,
            height: self.max_y - self.min_y + 2 * MARGIN,
        }
    }

    /// No edge lies farther from the origin than glyphs at positions and of
    /// sizes that `i32` holds can reach.
    pub open spec fn within_range(self) -> bool {
        &&& -0x1_0000_0000 <= self.min_x <= 0
        &&& 0 <= self.max_x <= 0x1_0000_0000
        &&& -0x1_0000_0000 <= self.min_y <= 0
        &&& 0 <= self.max_y <= 0x1_0000_0000
    }
}

/// The box that the glyphs among the primitives span, together with the
/// origin. Wires and junctions do not count.
pub open spec fn span(primitives: Seq<PrimitiveView>) -> Bounds
    decreases primitives.len(),
{
    if primitives.len() == 0 {
        Bounds { min_x: 0, max_x: 0, min_y: 0, max_y: 0 }
    } else {
        let before = span(primitives.drop_last());
        match primitives.last() {
            PrimitiveView::Glyph { at, size, rotated, .. } => before.grown(at, size, rotated),
            _ => before,
        }
    }
}

/// The texts joined, with a space between one and the next.
pub open spec fn spaced(parts: Seq<Seq<char>>) -> Seq<char>
    decreases parts.len(),
{
    if parts.len() == 0 {
        Seq::empty()
    } else if parts.len() == 1 {
        parts[0]
    } else {
        spaced(parts.drop_last()) + seq![' '] + parts.last()
    }
}

/// The text of the command for one step of an outline. An arc is a part of
/// a circle, not turned, the short way round, clockwise.
pub open spec fn segment_text(segment: SegmentView) -> Seq<char> {
    match segment {
        SegmentView::MoveTo(x, y) => move_text(x, y),
        SegmentView::LineTo(x, y) => line_text(x, y),
        SegmentView::ArcTo { radius, x, y } => arc_text(radius, radius, 0, 0, 1, x, y),
    }
}

/// The texts of the commands for the steps of an outline.
pub open spec fn segment_texts(segments: Seq<SegmentView>) -> Seq<Seq<char>> {
    Seq::new(segments.len(), |i: int| segment_text(segments[i]))
}

/// The element that draws a shape.
pub open spec fn shape_markup(shape: ShapeView) -> Markup {
    match shape {
        ShapeView::Outline { width, segments } => leaf(
            "path"@,
            Map::empty().insert("stroke"@, "black"@).insert("fill"@, "none"@).insert(
                "stroke-width"@,
                decimal(width),
            ).insert("d"@, spaced(segment_texts(segments))),
        ),
        ShapeView::Rect { x, y, width, height } => leaf(
            "rect"@,
            Map::empty().insert("x"@, decimal(x)).insert("y"@, decimal(y)).insert(
                "width"@,
                decimal(width),
            ).insert("height"@, decimal(height)).insert("stroke"@, "black"@).insert(
                "fill"@,
                "none"@,
            ).insert("stroke-width"@, decimal(2)),
        ),
        ShapeView::Ring { cx, cy, r, filled } => leaf(
            "circle"@,
            Map::empty().insert("cx"@, decimal(cx)).insert("cy"@, decimal(cy)).insert(
                "r"@,
                decimal(r),
            ).insert("stroke-width"@, decimal(2)).insert("stroke"@, "black"@).insert(
                "fill"@,
                if filled { "white"@ } else { "none"@ },
            ),
        ),
        ShapeView::Dot { cx, cy, r } => leaf(
            "circle"@,
            Map::empty().insert("cx"@, decimal(cx)).insert("cy"@, decimal(cy)).insert(
                "r"@,
                decimal(r),
            ).insert("fill"@, "black"@),
        ),
        ShapeView::Label { text, x, y, turned } => Markup::Element {
            name: "text"@,
            attributes: Map::empty().insert("x"@, decimal(x)).insert("y"@, decimal(y)).insert(
                "text-anchor"@,
                "middle"@,
            ).insert("transform"@, if turned { "rotate(-90)"@ } else { ""@ }),
            children: seq![Markup::Text(text)],
        },
    }
}

/// The elements that draw the shapes, in their order.
pub open spec fn shapes_markup(shapes: Seq<ShapeView>) -> Seq<Markup> {
    Seq::new(shapes.len(), |i: int| shape_markup(shapes[i]))
}

/// The node that draws a primitive: for a glyph the group of its shapes,
/// moved to the glyph's place and turned by a quarter where the glyph is
/// rotated; for a wire a stroke of width 2; for a junction a dot of radius
/// 3.
pub open spec fn primitive_markup(primitive: PrimitiveView) -> Markup {
    match primitive {
        PrimitiveView::Glyph { kind, label, at, size, rotated } => Markup::Element {
            name: "g"@,
            attributes: Map::empty().insert(
                "transform"@,
                placed_text(at.x, at.y, if rotated { 90 } else { 0 }),
            ),
            children: shapes_markup(glyph_shapes(kind, label, size, rotated)),
        },
        PrimitiveView::Wire { from, to } => shape_markup(line(from, to, 2)),
        PrimitiveView::Junction { at } => shape_markup(ShapeView::Dot { cx: at.x, cy: at.y, r: 3 }),
    }
}

/// The nodes that draw the primitives, in their order.
pub open spec fn primitives_markup(primitives: Seq<PrimitiveView>) -> Seq<Markup> {
    Seq::new(primitives.len(), |i: int| primitive_markup(primitives[i]))
}

/// The document that draws the primitives: it has the size of the canvas
/// that holds the box of the glyphs with its margin, on white, and holds
/// one group with the nodes of the primitives, moved so that the origin
/// lies in the middle of the canvas.
pub open spec fn drawing(primitives: Seq<PrimitiveView>) -> Markup {
    let canvas = span(primitives).canvas();
    Markup::Element {
        name: "svg"@,
        attributes: Map::empty().insert("xmlns"@, "http://www.w3.org/2000/svg"@).insert(
            "viewBox"@,
            boxed_text(canvas.width, canvas.height),
        ).insert("width"@, decimal(canvas.width)).insert("height"@, decimal(canvas.height)).insert(
            "style"@,
            "background: white"@,
        ),
        children: seq![
            Markup::Element {
                name: "g"@,
                attributes: Map::empty().insert(
                    "transform"@,
                    moved_text(half(canvas.width), half(canvas.height)),
                ),
                children: primitives_markup(primitives),
            },
        ],
    }
}

/// A box of the plane, by its edges, in numbers.
struct ViewBox {
    min_x: i64,
    max_x: i64,
    min_y: i64,
    max_y: i64,
}

impl View for ViewBox {
    type V = Bounds;

    closed spec fn view(&self) -> Bounds {
        Bounds {
            min_x: self.min_x as int,
            max_x: self.max_x as int,
            min_y: self.min_y as int,
            max_y: self.max_y as int,
        }
    }
}

/// A sink that builds an SVG document.
pub struct SvgDrawer {
    drawn: Recorder,
}

impl SvgDrawer {
    /// A drawer that has drawn nothing.
    pub fn new() -> (drawer: Self)
        ensures
            drawer.emitted() == Seq::<PrimitiveView>::empty(),
    {
        Self { drawn: Recorder::new() }
    }

    /// What the drawer was asked to draw, oldest first.
    pub fn primitives(&self) -> (primitives: &Vec<Primitive>)
        ensures
            primitives@.len() == self.emitted().len(),
            forall|i: int| 0 <= i < primitives@.len() ==> (#[trigger] primitives@[i])@ == self.emitted()[i],
    {
        &self.drawn.primitives
    }

    /// The box that the glyphs drawn so far span.
    fn view_box(&self) -> (bounds: ViewBox)
        ensures
            bounds@ == span(self.emitted()),
            bounds@.within_range(),
    {
        let ghost all = self.drawn.emitted();
        let mut bounds = ViewBox { min_x: 0, max_x: 0, min_y: 0, max_y: 0 };
        let mut i: usize = 0;
        while i < self.drawn.primitives.len()
            invariant
                0 <= i <= self.drawn.primitives@.len(),
                all == self.drawn.emitted(),
                bounds@ == span(all.take(i as int)),
                bounds@.within_range(),
            decreases self.drawn.primitives@.len() - i,
        {
            assert(all.take(i as int + 1).drop_last() =~= all.take(i as int));
            bounds = match &self.drawn.primitives[i] {
                Primitive::Glyph { position, size, rotate, .. } => Self::grow_viewbox(
                    bounds,
                    *position,
                    *size,
                    *rotate,
                ),
                _ => bounds,
            };
            i = i + 1;
        }
        assert(all.take(i as int) =~= all);
        bounds
    }

    /// The width and the height of the canvas that the finished document
    /// will have: the box that the glyphs span, with the margin around it.
    pub fn canvas(&self) -> (canvas: (i64, i64))
        ensures
            canvas.0 == span(self.emitted()).canvas().width,
            canvas.1 == span(self.emitted()).canvas().height,
    {
        let bounds = self.view_box();
        (bounds.max_x - bounds.min_x + 2 * MARGIN, bounds.max_y - bounds.min_y + 2 * MARGIN)
    }

    /// Ends the drawing: the document is the drawing of all that the drawer
    /// was asked to draw, as `drawing` says.
    pub fn finalize(self) -> (document: SVG)
        ensures
            document_markup(document) == drawing(self.emitted()),
    {
        let (w, h) = self.canvas();
        let ghost all = self.drawn.emitted();
        let mut root = svg::node::element::Group::new();
        let mut i: usize = 0;
        while i < self.drawn.primitives.len()
            invariant
                0 <= i <= self.drawn.primitives@.len(),
                all == self.drawn.emitted(),
                group_attributes(root) == no_attributes(),
                group_children(root) == primitives_markup(all.take(i as int)),
            decreases self.drawn.primitives@.len() - i,
        {
            root = match &self.drawn.primitives[i] {
                Primitive::Glyph { kind, label, position, size, rotate } => {
                    let symbol = Self::group(&shapes(*kind, label.as_str(), *size, *rotate));
                    group_add_group(root, Self::transform(symbol, *position, *rotate))
                },
                Primitive::Wire(a, b) => Self::add(root, &stroke(*a, *b, 2)),
                Primitive::Junction(position) => Self::add(
                    root,
                    &Shape::Dot { cx: position.0, cy: position.1, r: 3 },
                ),
            };
            i = i + 1;
        }
        assert(all.take(i as int) =~= all);
        let root = group_set(root, "transform", text(moved(w / 2, h / 2).as_str()));
        let document = document_add(SVG::new(), root);
        let document = document_set(document, "viewBox", text(boxed(w, h).as_str()));
        let document = document_set(document, "width", number(w));
        let document = document_set(document, "height", number(h));
        let document = document_set(document, "style", text("background: white"));
        document
    }

    /// A group that holds the shapes.
    fn group(shapes: &Vec<Shape>) -> (group: svg::node::element::Group)
        ensures
            group_attributes(group) == no_attributes(),
            group_children(group) == shapes_markup(shape_views(shapes@)),
    {
        let ghost all = shape_views(shapes@);
        let mut group = svg::node::element::Group::new();
        let mut i: usize = 0;
        while i < shapes.len()
            invariant
                0 <= i <= shapes@.len(),
                all == shape_views(shapes@),
                group_attributes(group) == no_attributes(),
                group_children(group) == shapes_markup(all.take(i as int)),
            decreases shapes@.len() - i,
        {
            group = Self::add(group, &shapes[i]);
            i = i + 1;
        }
        group
    }

    /// The group with one more child: the node for the shape.
    fn add(group: svg::node::element::Group, shape: &Shape) -> (more: svg::node::element::Group)
        ensures
            group_children(more) == group_children(group).push(shape_markup(shape@)),
            group_attributes(more) == group_attributes(group),
    {
        match shape {
            Shape::Outline { width, segments } => {
                let ghost steps = shape@->Outline_segments;
                let mut data = Data::new();
                let mut i: usize = 0;
                while i < segments.len()
                    invariant
                        0 <= i <= segments@.len(),
                        steps == Seq::new(segments@.len(), |k: int| segments@[k]@),
                        data_commands(data) == segment_texts(steps.take(i as int)),
                    decreases segments@.len() - i,
                {
                    data = match segments[i] {
                        Segment::MoveTo(x, y) => move_to(data, x, y),
                        Segment::LineTo(x, y) => line_to(data, x, y),
                        Segment::ArcTo { radius, x, y } => arc_to(data, radius, radius, 0, 0, 1, x, y),
                    };
                    i = i + 1;
                }
                assert(steps.take(i as int) =~= steps);
                let path = path_set(Path::new(), "stroke", text("black"));
                let path = path_set(path, "fill", text("none"));
                let path = path_set(path, "stroke-width", number(*width as i64));
                let path = path_set(path, "d", path_data(data));
                group_add_path(group, path)
            },
            Shape::Rect { x, y, width, height } => {
                let rectangle = rectangle_set(Rectangle::new(), "x", number(*x as i64));
                let rectangle = rectangle_set(rectangle, "y", number(*y as i64));
                let rectangle = rectangle_set(rectangle, "width", number(*width as i64));
                let rectangle = rectangle_set(rectangle, "height", number(*height as i64));
                let rectangle = rectangle_set(rectangle, "stroke", text("black"));
                let rectangle = rectangle_set(rectangle, "fill", text("none"));
                let rectangle = rectangle_set(rectangle, "stroke-width", number(2));
                group_add_rectangle(group, rectangle)
            },
            Shape::Ring { cx, cy, r, filled } => {
                let fill = if *filled { "white" } else { "none" };
                let circle = circle_set(Circle::new(), "cx", number(*cx as i64));
                let circle = circle_set(circle, "cy", number(*cy as i64));
                let circle = circle_set(circle, "r", number(*r as i64));
                let circle = circle_set(circle, "stroke-width", number(2));
                let circle = circle_set(circle, "stroke", text("black"));
                let circle = circle_set(circle, "fill", text(fill));
                group_add_circle(group, circle)
            },
            Shape::Dot { cx, cy, r } => {
                let circle = circle_set(Circle::new(), "cx", number(*cx as i64));
                let circle = circle_set(circle, "cy", number(*cy as i64));
                let circle = circle_set(circle, "r", number(*r as i64));
                let circle = circle_set(circle, "fill", text("black"));
                group_add_circle(group, circle)
            },
            Shape::Label { text: content, x, y, turned } => {
                let ltrans = if *turned { "rotate(-90)" } else { "" };
                let label = label_add(svg::node::element::Text::new(), content_node(content.as_str()));
                let label = label_set(label, "x", number(*x as i64));
                let label = label_set(label, "y", number(*y as i64));
                let label = label_set(label, "text-anchor", text("middle"));
                let label = label_set(label, "transform", text(ltrans));
                group_add_label(group, label)
            },
        }
    }

    /// The group moved to the position, and turned by a quarter where
    /// `rotate`.
    fn transform(group: svg::node::element::Group, position: Position, rotate: bool) -> (moved:
        svg::node::element::Group)
        ensures
            group_attributes(moved) == group_attributes(group).insert(
                "transform"@,
                placed_text(position@.x, position@.y, if rotate { 90 } else { 0 }),
            ),
            group_children(moved) == group_children(group),
    {
        let degrees: i32 = if rotate { 90 } else { 0 };
        group_set(group, "transform", text(placed(position.0, position.1, degrees).as_str()))
    }

    /// The box grown to hold a glyph.
    fn grow_viewbox(bounds: ViewBox, position: Position, size: Size, rotate: bool) -> (grown: ViewBox)
        requires
            bounds@.within_range(),
        ensures
            grown@ == bounds@.grown(position@, size@, rotate),
            grown@.within_range(),
    {
        let size = if rotate { Size(size.1, size.0) } else { size };
        let min_x: i64 = position.0 as i64 - (size.0 / 2) as i64;
        let max_x: i64 = position.0 as i64 + (size.0 / 2) as i64;
        let min_y: i64 = position.1 as i64 - (size.1 / 2) as i64;
        let max_y: i64 = position.1 as i64 + (size.1 / 2) as i64;
        ViewBox {
            min_x: if min_x < bounds.min_x { min_x } else { bounds.min_x },
            max_x: if max_x > bounds.max_x { max_x } else { bounds.max_x },
            min_y: if min_y < bounds.min_y { min_y } else { bounds.min_y },
            max_y: if max_y > bounds.max_y { max_y } else { bounds.max_y },
        }
    }

    /// The label of a glyph.
    pub fn label(label: &str, rotate: bool, xoff: i32, yoff: i32) -> (shape: Shape)
        ensures
            shape@ == caption(label@, rotate, xoff as int, yoff as int),
    {
        let (lx, ly) = if rotate { (xoff, 5) } else { (0, yoff) };
        Shape::Label { text: String::from_str(label), x: lx, y: ly, turned: rotate }
    }
}

impl Drawer for SvgDrawer {
    closed spec fn emitted(&self) -> Seq<PrimitiveView> {
        self.drawn.emitted()
    }

    fn resistor(&mut self, label: &str, position: Position, size: Size, rotate: bool) {
        self.drawn.resistor(label, position, size, rotate);
    }

    fn capacitor(&mut self, label: &str, position: Position, size: Size, rotate: bool) {
        self.drawn.capacitor(label, position, size, rotate);
    }

    fn inductor(&mut self, label: &str, position: Position, size: Size, rotate: bool) {
        self.drawn.inductor(label, position, size, rotate);
    }

    fn voltage_source(&mut self, label: &str, position: Position, size: Size, rotate: bool) {
        self.drawn.voltage_source(label, position, size, rotate);
    }

    fn current_source(&mut self, label: &str, position: Position, size: Size, rotate: bool) {
        self.drawn.current_source(label, position, size, rotate);
    }

    fn open(&mut self, label: &str, position: Position, size: Size, rotate: bool) {
        self.drawn.open(label, position, size, rotate);
    }

    fn wire(&mut self, a: Position, b: Position) {
        self.drawn.wire(a, b);
    }

    fn junction(&mut self, position: Position) {
        self.drawn.junction(position);
    }
}

} // verus!
