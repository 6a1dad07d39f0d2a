use circmark_parse::draw::{Context, Draw, Glyph, Primitive, Recorder};
use circmark_parse::layout::{Layout, Position, Size};
use circmark_parse::twoport::{chain, element, Chain, ChainNode, Element};

fn glyph(kind: Glyph, label: &str, position: Position, size: Size, rotate: bool) -> Primitive {
    Primitive::Glyph { kind, label: label.to_string(), position, size, rotate }
}

fn recorded<N: Draw>(node: &N, size: Size, ctx: Context) -> Vec<Primitive> {
    assert!(node.can_draw(size, ctx));
    let mut recorder = Recorder::new();
    node.draw(size, ctx, &mut recorder);
    recorder.primitives
}

fn at(x: i32, y: i32) -> Context {
    Context { position: Position(x, y), rotate: false }
}

#[test]
fn chain_sizes() {
    assert_eq!(Element::R("1").layout_size(), Size(200, 60));
    assert_eq!(Element::Open.checked_layout_size(), Some(Size(200, 60)));
    assert_eq!(ChainNode::Series(Element::C("1")).layout_size(), Size(200, 60));
    assert_eq!(ChainNode::Shunt(Element::C("1")).layout_size(), Size(60, 200));
    let stack = element("(-C1-L1-R1)").unwrap().1;
    assert_eq!(stack.layout_size(), Size(600, 60));
    assert_eq!(ChainNode::Shunt(stack).checked_layout_size(), Some(Size(60, 600)));
    assert_eq!(chain("|V1|(-C1-L1)").unwrap().1.layout_size(), Size(120, 400));
    assert_eq!(chain("|O-R1-L1|(-C1-R2)|O").unwrap().1.layout_size(), Size(60 + 400 + 60 + 60, 400));
    assert_eq!(chain("-(-(-R1-R2)-C1)").unwrap().1.checked_layout_size(), Some(Size(600, 60)));
    assert_eq!(Chain(vec![]).layout_size(), Size(0, 0));
    assert_eq!(Element::Sub(Chain(vec![])).layout_size(), Size(0, 0));
}

#[test]
fn every_chain_element_has_its_glyph() {
    let size = Size(200, 60);
    let cases = [
        (Element::R("1"), Glyph::Resistor, "R1"),
        (Element::C("2"), Glyph::Capacitor, "C2"),
        (Element::L("3"), Glyph::Inductor, "L3"),
        (Element::V("4"), Glyph::VoltageSource, "V4"),
        (Element::Z("5"), Glyph::Resistor, "Z5"),
        (Element::I("6"), Glyph::CurrentSource, "I6"),
        (Element::Open, Glyph::Open, ""),
    ];
    for (element, kind, label) in cases {
        assert_eq!(
            recorded(&element, size, at(7, -9).rotate()),
            vec![glyph(kind, label, Position(7, -9), size, true)]
        );
    }
}

#[test]
fn shunt_sub_chain_is_stacked_down_the_slot() {
    let parsed = chain("|V1|(-C1-L1)").unwrap().1;
    let size = parsed.layout_size();
    assert_eq!(size, Size(120, 400));
    assert_eq!(
        recorded(&parsed, size, at(0, 0)),
        vec![
            Primitive::Wire(Position(-30, -200), Position(0, -200)),
            Primitive::Wire(Position(-30, 200), Position(0, 200)),
            glyph(Glyph::VoltageSource, "V1", Position(-30, 0), Size(400, 60), true),
            Primitive::Wire(Position(0, -200), Position(30, -200)),
            Primitive::Wire(Position(0, 200), Position(30, 200)),
            glyph(Glyph::Capacitor, "C1", Position(30, -100), Size(200, 60), true),
            glyph(Glyph::Inductor, "L1", Position(30, 100), Size(200, 60), true),
        ]
    );
}

#[test]
fn cells_share_the_length_and_the_last_takes_the_rest() {
    let stack = element("(-R1-R2-R3)").unwrap().1;
    assert_eq!(
        recorded(&stack, Size(100, 10), at(0, 0)),
        vec![
            glyph(Glyph::Resistor, "R1", Position(-50 + 16, 0), Size(33, 10), false),
            glyph(Glyph::Resistor, "R2", Position(-17 + 16, 0), Size(33, 10), false),
            glyph(Glyph::Resistor, "R3", Position(16 + 17, 0), Size(34, 10), false),
        ]
    );
    assert_eq!(
        recorded(&stack, Size(101, 10), at(0, 0).rotate()),
        vec![
            glyph(Glyph::Resistor, "R1", Position(0, -50 + 16), Size(33, 10), true),
            glyph(Glyph::Resistor, "R2", Position(0, -17 + 16), Size(33, 10), true),
            glyph(Glyph::Resistor, "R3", Position(0, 16 + 17), Size(35, 10), true),
        ]
    );
    let stack = element("(-R1-(-C1-C2-C3))").unwrap().1;
    assert_eq!(
        recorded(&stack, Size(800, 60), at(0, 0)),
        vec![
            glyph(Glyph::Resistor, "R1", Position(-300, 0), Size(200, 60), false),
            glyph(Glyph::Capacitor, "C1", Position(-100, 0), Size(200, 60), false),
            glyph(Glyph::Capacitor, "C2", Position(100, 0), Size(200, 60), false),
            glyph(Glyph::Capacitor, "C3", Position(300, 0), Size(200, 60), false),
        ]
    );
    let one = element("(-R1)").unwrap().1;
    assert_eq!(
        recorded(&one, Size(77, 5), at(3, 3)),
        vec![glyph(Glyph::Resistor, "R1", Position(3, 3), Size(77, 5), false)]
    );
}

#[test]
fn chain_with_series_and_shunt_nodes() {
    let parsed = chain("-R1|C1-R2").unwrap().1;
    let size = parsed.layout_size();
    assert_eq!(size, Size(460, 200));
    assert_eq!(
        recorded(&parsed, size, at(0, 0)),
        vec![
            glyph(Glyph::Resistor, "R1", Position(-130, -100), Size(200, 200), false),
            Primitive::Wire(Position(-230, 100), Position(-30, 100)),
            Primitive::Wire(Position(-30, -100), Position(0, -100)),
            Primitive::Wire(Position(-30, 100), Position(0, 100)),
            Primitive::Wire(Position(0, -100), Position(30, -100)),
            Primitive::Wire(Position(0, 100), Position(30, 100)),
            Primitive::Junction(Position(0, -100)),
            Primitive::Junction(Position(0, 100)),
            glyph(Glyph::Capacitor, "C1", Position(0, 0), Size(200, 60), true),
            glyph(Glyph::Resistor, "R2", Position(130, -100), Size(200, 200), false),
            Primitive::Wire(Position(30, 100), Position(230, 100)),
        ]
    );
}

#[test]
fn chain_agrees_with_twoport_on_plain_elements() {
    let plain = chain("|O-R1|C1-L1|O").unwrap().1;
    let twoport = circmark_parse::circuit::twoport("|O-R1|C1-L1|O").unwrap().1;
    assert_eq!(plain.layout_size(), twoport.layout_size());
    let size = plain.layout_size();
    assert_eq!(recorded(&plain, size, at(5, 6)), recorded(&twoport, size, at(5, 6)));
}

#[test]
fn shunt_in_a_stack_cannot_be_drawn() {
    let stack = Element::Sub(Chain(vec![
        ChainNode::Series(Element::R("1")),
        ChainNode::Shunt(Element::R("2")),
    ]));
    assert!(!stack.can_draw(Size(400, 60), at(0, 0)));
    let deep = Element::Sub(Chain(vec![ChainNode::Series(stack)]));
    assert!(!deep.can_draw(Size(400, 60), at(0, 0)));
    let chain = Chain(vec![ChainNode::Shunt(deep)]);
    assert!(!chain.can_draw(Size(60, 400), at(0, 0)));
}

#[test]
fn stack_of_nothing() {
    let nothing = Element::Sub(Chain(vec![]));
    assert_eq!(recorded(&nothing, Size(100, 100), at(0, 0)), vec![]);
    let hollow = Element::Sub(Chain(vec![
        ChainNode::Series(Element::Sub(Chain(vec![]))),
        ChainNode::Series(Element::Sub(Chain(vec![]))),
    ]));
    assert_eq!(hollow.layout_size(), Size(0, 0));
    assert!(!hollow.can_draw(Size(100, 100), at(0, 0)));
    let single = Element::Sub(Chain(vec![ChainNode::Series(Element::Sub(Chain(vec![])))]));
    assert_eq!(recorded(&single, Size(100, 100), at(0, 0)), vec![]);
}

#[test]
fn stack_that_leaves_the_plane() {
    let stack = element("(-R1-R2)").unwrap().1;
    assert!(stack.can_draw(Size(400, 60), at(i32::MAX - 100, 0)));
    assert!(!stack.can_draw(Size(400, 60), at(i32::MAX - 99, 0)));
    assert!(stack.can_draw(Size(400, 60), at(i32::MIN + 100, 0)));
    assert!(!stack.can_draw(Size(400, 60), at(i32::MIN + 99, 0)));
    assert!(stack.can_draw(Size(i32::MAX, 60), at(0, 0)));
    assert!(stack.can_draw(Size(i32::MIN, 60), at(0, 0)));
    let parsed = chain("|V1|(-C1-L1)").unwrap().1;
    assert!(parsed.can_draw(Size(120, 400), at(0, i32::MAX - 200)));
    assert!(!parsed.can_draw(Size(120, 400), at(0, i32::MAX - 199)));
}

#[test]
fn placing_a_chain_twice_emits_the_same() {
    let parsed = chain("|O-R1-L1|(-C1-(-R2-Z3))|I1|O").unwrap().1;
    let size = parsed.layout_size();
    let first = recorded(&parsed, size, at(-3, 4));
    let second = recorded(&parsed, size, at(-3, 4));
    assert_eq!(first, second);
    assert_eq!(first.iter().filter(|p| matches!(p, Primitive::Glyph { .. })).count(), 8);
}
