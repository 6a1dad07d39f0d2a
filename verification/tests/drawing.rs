use circmark_parse::circuit;
use circmark_parse::draw::vector::{shapes, stroke, Segment, Shape, SvgDrawer};
use circmark_parse::draw::{Context, Draw, Drawer, Glyph, Primitive, Recorder, LEAD_IN};
use circmark_parse::layout::{Layout, Position, Size};

fn rendered(name: &str, drawer: SvgDrawer) -> String {
    let mut text = Vec::new();
    match svg::write(&mut text, &drawer.finalize()) {
        Ok(()) => String::from_utf8(text).unwrap(),
        Err(error) => panic!("{}: {}", name, error),
    }
}

fn glyph(kind: Glyph, label: &str, position: Position, size: Size, rotate: bool) -> Primitive {
    Primitive::Glyph { kind, label: label.to_string(), position, size, rotate }
}

fn recorded<N: Draw>(node: &N, size: Size, ctx: Context) -> Vec<Primitive> {
    assert!(node.can_draw(size, ctx));
    let mut recorder = Recorder::new();
    node.draw(size, ctx, &mut recorder);
    recorder.primitives
}

fn at(x: i32, y: i32) -> Context {
    Context { position: Position(x, y), rotate: false }
}

#[test]
fn test_draw_single_resistor() {
    let mut drawer = SvgDrawer::new();
    let element = circuit::Element::R("1");
    element.draw(element.layout_size(), Context::default(), &mut drawer);
    let text = rendered("test-output/draw_single_resistor.svg", drawer);
    assert!(text.contains("<rect"));
    assert!(text.contains("transform=\"translate(0,0) rotate(0)\""));
    assert!(text.contains("\nR1\n"));
}

#[test]
fn test_draw_single_capacitor() {
    let mut drawer = SvgDrawer::new();
    let element = circuit::Element::C("1");
    element.draw(element.layout_size(), Context::default(), &mut drawer);
    let text = rendered("test-output/draw_single_capacitor.svg", drawer);
    assert_eq!(text.matches("<path").count(), 4);
    assert!(text.contains("\nC1\n"));
}

#[test]
fn test_draw_single_inductor() {
    let mut drawer = SvgDrawer::new();
    let element = circuit::Element::L("1");
    element.draw(element.layout_size(), Context::default(), &mut drawer);
    let text = rendered("test-output/draw_single_inductor.svg", drawer);
    assert_eq!(text.matches("<path").count(), 1);
    assert!(text.contains("d=\"M-100,0 L-40,0 A10,10,0,0,1,-20,0 A10,10,0,0,1,0,0 A10,10,0,0,1,20,0 A10,10,0,0,1,40,0 L100,0\""));
    assert!(text.contains("\nL1\n"));
}

#[test]
fn test_draw_single_resistor_rotated() {
    let mut drawer = SvgDrawer::new();
    let element = circuit::Element::R("1");
    element.draw(element.layout_size(), Context::default().rotate(), &mut drawer);
    let text = rendered("test-output/draw_single_resistor_rotated.svg", drawer);
    assert!(text.contains("transform=\"translate(0,0) rotate(90)\""));
    assert!(text.contains("transform=\"rotate(-90)\""));
    assert!(text.contains("viewBox=\"0 0 120 260\""));
}

#[test]
fn test_draw_single_capacitor_rotated() {
    let mut drawer = SvgDrawer::new();
    let element = circuit::Element::C("1");
    element.draw(element.layout_size(), Context::default().rotate(), &mut drawer);
    let text = rendered("test-output/draw_single_capacitor_rotated.svg", drawer);
    assert!(text.contains("transform=\"translate(0,0) rotate(90)\""));
    assert!(text.contains("\nC1\n"));
}

#[test]
fn test_draw_single_inductor_rotated() {
    let mut drawer = SvgDrawer::new();
    let element = circuit::Element::L("1");
    element.draw(element.layout_size(), Context::default().rotate(), &mut drawer);
    let text = rendered("test-output/draw_single_inductor_rotated.svg", drawer);
    assert!(text.contains("transform=\"translate(0,0) rotate(90)\""));
    assert!(text.contains("\nL1\n"));
}

#[test]
fn test_draw_two_series_resistors() {
    let mut drawer = SvgDrawer::new();
    let circuit = circuit::sub_circuit("(R1+R2)").unwrap().1;
    circuit.draw(circuit.layout_size(), Context::default(), &mut drawer);
    let text = rendered("test-output/draw_two_series_resistors.svg", drawer);
    assert!(text.contains("transform=\"translate(-100,0) rotate(0)\""));
    assert!(text.contains("transform=\"translate(100,0) rotate(0)\""));
    assert!(text.contains("viewBox=\"0 0 460 120\""));
}

#[test]
fn test_draw_two_series_resistors_rotated() {
    let mut drawer = SvgDrawer::new();
    let circuit = circuit::sub_circuit("(R1+R2)").unwrap().1;
    circuit.draw(circuit.layout_size(), Context::default().rotate(), &mut drawer);
    let text = rendered("test-output/draw_two_series_resistors_rotated.svg", drawer);
    assert!(text.contains("transform=\"translate(0,-100) rotate(90)\""));
    assert!(text.contains("transform=\"translate(0,100) rotate(90)\""));
    assert!(text.contains("viewBox=\"0 0 120 460\""));
}

#[test]
fn test_draw_two_parallel_resistors() {
    let mut drawer = SvgDrawer::new();
    let circuit = circuit::sub_circuit("(R1||R2)").unwrap().1;
    circuit.draw(circuit.layout_size(), Context::default(), &mut drawer);
    let text = rendered("test-output/draw_two_parallel_resistors.svg", drawer);
    assert!(text.contains("transform=\"translate(0,-30) rotate(0)\""));
    assert!(text.contains("transform=\"translate(0,30) rotate(0)\""));
    assert_eq!(text.matches("<circle").count(), 2);
}

#[test]
fn test_draw_parallel_series_combi() {
    let mut drawer = SvgDrawer::new();
    let circuit = circuit::sub_circuit("(R1||(R2+R3))").unwrap().1;
    circuit.draw(circuit.layout_size(), Context::default(), &mut drawer);
    let text = rendered("test-output/draw_parallel_series_combi.svg", drawer);
    assert_eq!(text.matches("<rect").count(), 3);
    assert_eq!(text.matches("<circle").count(), 2);
}

#[test]
fn test_draw_parallel_series_combi2() {
    let mut drawer = SvgDrawer::new();
    let circuit = circuit::sub_circuit("(R1+R2||R3)").unwrap().1;
    circuit.draw(circuit.layout_size(), Context::default(), &mut drawer);
    let text = rendered("test-output/draw_parallel_series_combi2.svg", drawer);
    assert_eq!(text.matches("<rect").count(), 3);
    assert_eq!(text.matches("<circle").count(), 2);
}

#[test]
fn test_draw_parallel_series_combi3() {
    let mut drawer = SvgDrawer::new();
    let circuit = circuit::sub_circuit("((R1+R2||R3)+R4)").unwrap().1;
    circuit.draw(circuit.layout_size(), Context::default(), &mut drawer);
    let text = rendered("test-output/draw_parallel_series_combi3.svg", drawer);
    assert_eq!(text.matches("<rect").count(), 4);
    assert_eq!(text.matches("<circle").count(), 2);
}

#[test]
fn context_moves_and_turns() {
    let ctx = Context::default();
    assert_eq!(ctx, Context { position: Position(0, 0), rotate: false });
    assert_eq!(ctx.translate(3, -4), Context { position: Position(3, -4), rotate: false });
    assert_eq!(ctx.rotate(), Context { position: Position(0, 0), rotate: true });
    assert_eq!(ctx.rotate().translate(3, -4), Context { position: Position(-4, 3), rotate: true });
    assert_eq!(ctx.rotate().rotate(), ctx);
    assert_eq!(at(10, 20).translate(-1, 1).rotate().translate(5, 7).position, Position(16, 26));
    assert_eq!(at(10, 20).checked_translate(-1, 1), Some(at(9, 21)));
    assert_eq!(at(i32::MAX, 0).checked_translate(1, 0), None);
    assert_eq!(at(i32::MAX, 0).rotate().checked_translate(1, 0), Some(at(i32::MAX, 1).rotate()));
    assert_eq!(at(0, i32::MIN).checked_translate(0, -1), None);
    assert_eq!(at(i32::MIN, i32::MAX).checked_translate(i32::MAX, i32::MIN), Some(at(-1, -1)));
}

#[test]
fn every_element_has_its_glyph() {
    let size = Size(200, 60);
    let cases = [
        (circuit::Element::R("1"), Glyph::Resistor, "R1"),
        (circuit::Element::C("2"), Glyph::Capacitor, "C2"),
        (circuit::Element::L("3"), Glyph::Inductor, "L3"),
        (circuit::Element::V("4"), Glyph::VoltageSource, "V4"),
        (circuit::Element::Z("5"), Glyph::Resistor, "Z5"),
        (circuit::Element::I("6"), Glyph::CurrentSource, "I6"),
        (circuit::Element::Open, Glyph::Open, ""),
    ];
    for (element, kind, label) in cases {
        assert_eq!(
            recorded(&element, size, at(7, -9)),
            vec![glyph(kind, label, Position(7, -9), size, false)]
        );
        assert_eq!(
            recorded(&element, Size(1, 2), at(7, -9).rotate()),
            vec![glyph(kind, label, Position(7, -9), Size(1, 2), true)]
        );
    }
}

#[test]
fn series_splits_the_width_by_natural_widths() {
    let parsed = circuit::sub_circuit("(R1+R2)").unwrap().1;
    assert_eq!(
        recorded(&parsed, Size(400, 60), at(0, 0)),
        vec![
            glyph(Glyph::Resistor, "R1", Position(-100, 0), Size(200, 60), false),
            glyph(Glyph::Resistor, "R2", Position(100, 0), Size(200, 60), false),
        ]
    );
    assert_eq!(
        recorded(&parsed, Size(301, 77), at(1000, 10)),
        vec![
            glyph(Glyph::Resistor, "R1", Position(1000 - 75, 10), Size(150, 77), false),
            glyph(Glyph::Resistor, "R2", Position(1000 + 75, 10), Size(151, 77), false),
        ]
    );
    let parsed = circuit::sub_circuit("(R1+R2+R3)").unwrap().1;
    assert_eq!(
        recorded(&parsed, Size(100, 10), at(0, 0)),
        vec![
            glyph(Glyph::Resistor, "R1", Position(-16, 0), Size(33, 10), false),
            glyph(Glyph::Resistor, "R2", Position(33 - 16, 0), Size(33, 10), false),
            glyph(Glyph::Resistor, "R3", Position(33 + 17, 0), Size(34, 10), false),
        ]
    );
}

#[test]
fn series_in_a_turned_context_runs_down() {
    let parsed = circuit::sub_circuit("(R1+C2)").unwrap().1;
    assert_eq!(
        recorded(&parsed, Size(400, 60), at(5, 5).rotate()),
        vec![
            glyph(Glyph::Resistor, "R1", Position(5, -95), Size(200, 60), true),
            glyph(Glyph::Capacitor, "C2", Position(5, 105), Size(200, 60), true),
        ]
    );
}

#[test]
fn parallel_splits_the_height_and_closes_the_rails() {
    assert_eq!(LEAD_IN, 20);
    let parsed = circuit::sub_circuit("(R1||R2)").unwrap().1;
    assert_eq!(
        recorded(&parsed, Size(200, 120), at(0, 0)),
        vec![
            glyph(Glyph::Resistor, "R1", Position(0, -30), Size(160, 60), false),
            glyph(Glyph::Resistor, "R2", Position(0, 30), Size(160, 60), false),
            Primitive::Wire(Position(-80, -30), Position(-80, 30)),
            Primitive::Wire(Position(80, -30), Position(80, 30)),
            Primitive::Junction(Position(-80, 0)),
            Primitive::Junction(Position(80, 0)),
            Primitive::Wire(Position(-100, 0), Position(-80, 0)),
            Primitive::Wire(Position(100, 0), Position(80, 0)),
        ]
    );
    let parsed = circuit::sub_circuit("(R1||(R2||R3))").unwrap().1;
    let drawn = recorded(&parsed, Size(240, 100), at(0, 0));
    assert_eq!(drawn[0], glyph(Glyph::Resistor, "R1", Position(0, -16), Size(200, 33), false));
    assert_eq!(drawn[1], glyph(Glyph::Resistor, "R2", Position(0, 33 - 16), Size(160, 33), false));
    assert_eq!(drawn[2], glyph(Glyph::Resistor, "R3", Position(0, 33 + 17), Size(160, 34), false));
    assert_eq!(drawn[3], Primitive::Wire(Position(-80, 33 - 16), Position(-80, 33 + 17)));
    assert_eq!(drawn[9], Primitive::Wire(Position(-100, -16), Position(-100, 33)));
    assert_eq!(drawn[13], Primitive::Wire(Position(-120, 0), Position(-100, 0)));
    assert_eq!(drawn.len(), 15);
}

#[test]
fn parallel_in_a_turned_context() {
    let parsed = circuit::sub_circuit("(R1||R2)").unwrap().1;
    assert_eq!(
        recorded(&parsed, Size(200, 120), at(0, 0).rotate()),
        vec![
            glyph(Glyph::Resistor, "R1", Position(-30, 0), Size(160, 60), true),
            glyph(Glyph::Resistor, "R2", Position(30, 0), Size(160, 60), true),
            Primitive::Wire(Position(-30, -80), Position(30, -80)),
            Primitive::Wire(Position(-30, 80), Position(30, 80)),
            Primitive::Junction(Position(0, -80)),
            Primitive::Junction(Position(0, 80)),
            Primitive::Wire(Position(0, -100), Position(0, -80)),
            Primitive::Wire(Position(0, 100), Position(0, 80)),
        ]
    );
}

#[test]
fn negative_sizes_round_toward_zero() {
    let parsed = circuit::sub_circuit("(R1+R2+R3)").unwrap().1;
    assert_eq!(
        recorded(&parsed, Size(-100, 10), at(0, 0)),
        vec![
            glyph(Glyph::Resistor, "R1", Position(16, 0), Size(-33, 10), false),
            glyph(Glyph::Resistor, "R2", Position(-33 + 16, 0), Size(-33, 10), false),
            glyph(Glyph::Resistor, "R3", Position(-33 - 17, 0), Size(-34, 10), false),
        ]
    );
}

#[test]
fn twoport_open_on_both_sides() {
    let parsed = circuit::twoport("|O-R1|O").unwrap().1;
    let size = parsed.layout_size();
    assert_eq!(size, Size(320, 200));
    assert_eq!(
        recorded(&parsed, size, at(0, 0)),
        vec![
            Primitive::Wire(Position(-130, -100), Position(-100, -100)),
            Primitive::Wire(Position(-130, 100), Position(-100, 100)),
            glyph(Glyph::Open, "", Position(-130, 0), Size(200, 60), true),
            glyph(Glyph::Resistor, "R1", Position(0, -100), Size(200, 200), false),
            Primitive::Wire(Position(-100, 100), Position(100, 100)),
            Primitive::Wire(Position(100, -100), Position(130, -100)),
            Primitive::Wire(Position(100, 100), Position(130, 100)),
            glyph(Glyph::Open, "", Position(130, 0), Size(200, 60), true),
        ]
    );
}

#[test]
fn shunt_between_two_links_gets_junctions() {
    let parsed = circuit::twoport("-R1|C1-R2").unwrap().1;
    let size = parsed.layout_size();
    assert_eq!(size, Size(460, 200));
    assert_eq!(
        recorded(&parsed, size, at(0, 0)),
        vec![
            glyph(Glyph::Resistor, "R1", Position(-130, -100), Size(200, 200), false),
            Primitive::Wire(Position(-230, 100), Position(-30, 100)),
            Primitive::Wire(Position(-30, -100), Position(0, -100)),
            Primitive::Wire(Position(-30, 100), Position(0, 100)),
            Primitive::Wire(Position(0, -100), Position(30, -100)),
            Primitive::Wire(Position(0, 100), Position(30, 100)),
            Primitive::Junction(Position(0, -100)),
            Primitive::Junction(Position(0, 100)),
            glyph(Glyph::Capacitor, "C1", Position(0, 0), Size(200, 60), true),
            glyph(Glyph::Resistor, "R2", Position(130, -100), Size(200, 200), false),
            Primitive::Wire(Position(30, 100), Position(230, 100)),
        ]
    );
}

#[test]
fn lone_shunt_gets_neither_wire_nor_junction() {
    let parsed = circuit::twoport("|V1").unwrap().1;
    assert_eq!(
        recorded(&parsed, Size(60, 200), at(0, 0)),
        vec![glyph(Glyph::VoltageSource, "V1", Position(0, 0), Size(200, 60), true)]
    );
}

#[test]
fn shunt_group_is_drawn_turned() {
    let parsed = circuit::twoport("|(R1+R2)").unwrap().1;
    let size = parsed.layout_size();
    assert_eq!(size, Size(60, 400));
    assert_eq!(
        recorded(&parsed, size, at(0, 0)),
        vec![
            glyph(Glyph::Resistor, "R1", Position(0, -100), Size(200, 60), true),
            glyph(Glyph::Resistor, "R2", Position(0, 100), Size(200, 60), true),
        ]
    );
}

#[test]
fn twoport_keeps_natural_link_widths() {
    let parsed = circuit::twoport("-R1-R2").unwrap().1;
    assert_eq!(
        recorded(&parsed, Size(1000, 50), at(0, 0)),
        vec![
            glyph(Glyph::Resistor, "R1", Position(-400, -25), Size(200, 50), false),
            Primitive::Wire(Position(-500, 25), Position(-300, 25)),
            glyph(Glyph::Resistor, "R2", Position(-200, -25), Size(200, 50), false),
            Primitive::Wire(Position(-300, 25), Position(-100, 25)),
        ]
    );
}

#[test]
fn document_draws_what_it_holds() {
    let parsed = circuit::document("|O-R1|O").unwrap().1;
    let links = circuit::twoport("|O-R1|O").unwrap().1;
    assert_eq!(
        recorded(&parsed, Size(320, 200), at(1, 2)),
        recorded(&links, Size(320, 200), at(1, 2))
    );
    let parsed = circuit::document("(R1||C1)").unwrap().1;
    let inner = circuit::sub_circuit("(R1||C1)").unwrap().1;
    assert_eq!(
        recorded(&parsed, Size(200, 120), at(1, 2)),
        recorded(&inner, Size(200, 120), at(1, 2))
    );
}

#[test]
fn children_share_out_what_the_parent_has() {
    let parsed = circuit::sub_circuit("((R1+R2+R3)||(R4+R5)||R6)").unwrap().1;
    for width in [0, 1, 7, 200, 599, 600, 601, 12345] {
        for height in [0, 1, 59, 180, 181, 1001] {
            let drawn = recorded(&parsed, Size(width, height), at(0, 0));
            let sizes: Vec<Size> = drawn
                .iter()
                .filter_map(|primitive| match primitive {
                    Primitive::Glyph { size, .. } => Some(*size),
                    _ => None,
                })
                .collect();
            assert_eq!(sizes.len(), 6);
            assert_eq!(sizes[0].0 + sizes[1].0 + sizes[2].0, width - 40);
            assert_eq!(sizes[3].0 + sizes[4].0, width - 80);
            assert_eq!(sizes[5].0, width - 80);
            assert_eq!(sizes[0].1 + sizes[3].1 + sizes[5].1, height);
            assert_eq!(sizes[0].1, sizes[1].1);
            assert_eq!(sizes[3].1, sizes[4].1);
        }
    }
}

#[test]
fn placing_twice_emits_the_same() {
    let parsed = circuit::document("|O-((L1+R1)||C1)|(V1+Z2)-I3|O").unwrap().1;
    let size = parsed.layout_size();
    let first = recorded(&parsed, size, at(3, 4));
    let second = recorded(&parsed, size, at(3, 4));
    assert_eq!(first, second);
    let mut recorder = Recorder::new();
    parsed.draw(size, at(3, 4), &mut recorder);
    parsed.draw(size, at(3, 4), &mut recorder);
    assert_eq!(recorder.primitives.len(), 2 * first.len());
    assert_eq!(recorder.primitives[..first.len()], first[..]);
    assert_eq!(recorder.primitives[first.len()..], first[..]);
}

#[test]
fn recorder_keeps_every_request_in_order() {
    let mut recorder = Recorder::new();
    assert!(recorder.primitives.is_empty());
    recorder.wire(Position(1, 2), Position(3, 4));
    recorder.junction(Position(5, 6));
    recorder.open("", Position(0, 0), Size(1, 1), true);
    recorder.current_source("I1", Position(0, 1), Size(2, 3), false);
    recorder.voltage_source("V1", Position(0, 1), Size(2, 3), false);
    recorder.inductor("L1", Position(0, 1), Size(2, 3), false);
    recorder.capacitor("C1", Position(0, 1), Size(2, 3), false);
    recorder.resistor("R1", Position(0, 1), Size(2, 3), false);
    assert_eq!(
        recorder.primitives,
        vec![
            Primitive::Wire(Position(1, 2), Position(3, 4)),
            Primitive::Junction(Position(5, 6)),
            glyph(Glyph::Open, "", Position(0, 0), Size(1, 1), true),
            glyph(Glyph::CurrentSource, "I1", Position(0, 1), Size(2, 3), false),
            glyph(Glyph::VoltageSource, "V1", Position(0, 1), Size(2, 3), false),
            glyph(Glyph::Inductor, "L1", Position(0, 1), Size(2, 3), false),
            glyph(Glyph::Capacitor, "C1", Position(0, 1), Size(2, 3), false),
            glyph(Glyph::Resistor, "R1", Position(0, 1), Size(2, 3), false),
        ]
    );
}

#[test]
fn what_leaves_the_plane_cannot_be_drawn() {
    let element = circuit::Element::R("1");
    assert!(element.can_draw(Size(i32::MAX, i32::MIN), at(i32::MAX, i32::MIN)));
    let series = circuit::sub_circuit("(R1+R2)").unwrap().1;
    assert!(series.can_draw(Size(400, 60), at(i32::MAX - 100, 0)));
    assert!(!series.can_draw(Size(400, 60), at(i32::MAX - 99, 0)));
    assert!(series.can_draw(Size(400, 60), at(i32::MIN + 100, i32::MAX)));
    assert!(!series.can_draw(Size(400, 60), at(i32::MIN + 99, 0)));
    assert!(series.can_draw(Size(i32::MAX, i32::MAX), at(0, 0)));
    assert!(series.can_draw(Size(i32::MIN, i32::MIN), at(0, 0)));
    let parallel = circuit::sub_circuit("(R1||R2)").unwrap().1;
    assert!(parallel.can_draw(Size(200, 120), at(i32::MAX - 100, i32::MAX - 30)));
    assert!(!parallel.can_draw(Size(200, 120), at(i32::MAX - 99, 0)));
    assert!(!parallel.can_draw(Size(200, 120), at(0, i32::MAX - 29)));
    assert!(!parallel.can_draw(Size(i32::MIN + 39, 120), at(0, 0)));
    assert!(parallel.can_draw(Size(i32::MIN + 40, 120), at(0, 0)));
    let twoport = circuit::twoport("|O-R1|O").unwrap().1;
    assert!(twoport.can_draw(Size(320, 200), at(i32::MAX - 160, 0)));
    assert!(!twoport.can_draw(Size(320, 200), at(i32::MAX - 159, 0)));
    assert!(!twoport.can_draw(Size(320, 200), at(0, i32::MIN + 99)));
    let document = circuit::document("-R1").unwrap().1;
    assert!(document.can_draw(Size(200, 60), at(0, 0)));
    assert!(!document.can_draw(Size(200, 60), at(i32::MAX, 0)));
}

#[test]
fn svg_drawer_grows_its_canvas() {
    let mut drawer = SvgDrawer::new();
    assert_eq!(drawer.canvas(), (60, 60));
    drawer.resistor("R1", Position(100, 0), Size(200, 60), false);
    assert_eq!(drawer.canvas(), (200 + 60, 30 + 30 + 60));
    drawer.capacitor("C1", Position(-50, -100), Size(200, 61), true);
    assert_eq!(drawer.canvas(), (80 + 200 + 60, 200 + 30 + 60));
    drawer.wire(Position(-1000, -1000), Position(1000, 1000));
    drawer.junction(Position(5000, 5000));
    assert_eq!(drawer.canvas(), (340, 290));
    drawer.inductor("L1", Position(0, 0), Size(-1000, 10), false);
    assert_eq!(drawer.canvas(), (340, 290));
    drawer.current_source("I1", Position(0, 300), Size(0, 0), false);
    assert_eq!(drawer.canvas(), (340, 200 + 300 + 60));
    drawer.voltage_source("V1", Position(-1000, 0), Size(3, 3), false);
    assert_eq!(drawer.canvas(), (1001 + 200 + 60, 560));
    drawer.open("", Position(i32::MAX, i32::MIN), Size(i32::MAX, i32::MAX), true);
    let half = (i32::MAX / 2) as i64;
    assert_eq!(
        drawer.canvas(),
        (i32::MAX as i64 + half + 1001 + 60, 300 - (i32::MIN as i64 - half) + 60)
    );
}

#[test]
fn svg_drawer_of_spans_at_the_edge() {
    let mut drawer = SvgDrawer::new();
    drawer.open("", Position(i32::MAX, i32::MAX), Size(i32::MAX, i32::MAX), false);
    drawer.open("", Position(i32::MIN, i32::MIN), Size(i32::MAX, i32::MAX), true);
    let half = (i32::MAX / 2) as i64;
    let reach = (i32::MAX as i64 + half) - (i32::MIN as i64 - half);
    assert_eq!(drawer.canvas(), (reach + 60, reach + 60));
    let text = rendered("edge", drawer);
    assert!(text.contains(&format!("width=\"{}\"", reach + 60)));
}

#[test]
fn svg_document_is_centred_in_its_canvas() {
    let mut drawer = SvgDrawer::new();
    let parsed = circuit::document("|O-((L1+R1)||C1)|O").unwrap().1;
    let size = parsed.layout_size();
    assert_eq!(size, Size(520, 200));
    parsed.draw(size, Context::default(), &mut drawer);
    let (width, height) = drawer.canvas();
    let text = rendered("twoport", drawer);
    assert!(text.starts_with("<svg "));
    assert!(text.contains(&format!("viewBox=\"0 0 {} {}\"", width, height)));
    assert!(text.contains(&format!("width=\"{}\"", width)));
    assert!(text.contains(&format!("height=\"{}\"", height)));
    assert!(text.contains(&format!("transform=\"translate({},{})\"", width / 2, height / 2)));
    assert!(text.contains("style=\"background: white\""));
    assert!(text.contains("\nL1\n"));
    assert!(text.contains("\nR1\n"));
    assert!(text.contains("\nC1\n"));
}

fn line(from: (i32, i32), to: (i32, i32), width: i32) -> Shape {
    Shape::Outline {
        width,
        segments: vec![Segment::MoveTo(from.0, from.1), Segment::LineTo(to.0, to.1)],
    }
}

fn text(text: &str, x: i32, y: i32, turned: bool) -> Shape {
    Shape::Label { text: text.to_string(), x, y, turned }
}

#[test]
fn strokes_and_labels() {
    assert_eq!(stroke(Position(1, 2), Position(3, 4), 5), line((1, 2), (3, 4), 5));
    assert_eq!(SvgDrawer::label("R1", false, 7, 9), text("R1", 0, 9, false));
    assert_eq!(SvgDrawer::label("R1", true, 7, 9), text("R1", 7, 5, true));
}

#[test]
fn resistor_shapes() {
    assert_eq!(
        shapes(Glyph::Resistor, "R1", Size(200, 60), false),
        vec![
            line((-100, 0), (-35, 0), 2),
            Shape::Rect { x: -35, y: -10, width: 70, height: 20 },
            line((35, 0), (100, 0), 2),
            text("R1", 0, 4, false),
        ]
    );
    assert_eq!(
        shapes(Glyph::Resistor, "Zx", Size(151, 7), true),
        vec![
            line((-75, 0), (-35, 0), 2),
            Shape::Rect { x: -35, y: -10, width: 70, height: 20 },
            line((35, 0), (75, 0), 2),
            text("Zx", 0, 5, true),
        ]
    );
}

#[test]
fn capacitor_shapes() {
    assert_eq!(
        shapes(Glyph::Capacitor, "C1", Size(200, 60), false),
        vec![
            line((-100, 0), (-5, 0), 2),
            line((-5, -15), (-5, 15), 5),
            line((5, -15), (5, 15), 5),
            line((5, 0), (100, 0), 2),
            text("C1", 0, 30, false),
        ]
    );
    assert_eq!(shapes(Glyph::Capacitor, "C1", Size(200, 60), true)[4], text("C1", 30, 5, true));
}

#[test]
fn inductor_shapes() {
    assert_eq!(
        shapes(Glyph::Inductor, "L1", Size(300, 60), false),
        vec![
            Shape::Outline {
                width: 2,
                segments: vec![
                    Segment::MoveTo(-150, 0),
                    Segment::LineTo(-40, 0),
                    Segment::ArcTo { radius: 10, x: -20, y: 0 },
                    Segment::ArcTo { radius: 10, x: 0, y: 0 },
                    Segment::ArcTo { radius: 10, x: 20, y: 0 },
                    Segment::ArcTo { radius: 10, x: 40, y: 0 },
                    Segment::LineTo(150, 0),
                ],
            },
            text("L1", 0, -20, false),
        ]
    );
    assert_eq!(shapes(Glyph::Inductor, "L1", Size(300, 60), true)[1], text("L1", -25, 5, true));
}

#[test]
fn voltage_source_shapes() {
    assert_eq!(
        shapes(Glyph::VoltageSource, "V1", Size(200, 60), false),
        vec![
            line((-100, 0), (-5, 0), 2),
            line((-5, -20), (-5, 20), 4),
            line((5, -10), (5, 10), 4),
            line((5, 0), (100, 0), 2),
            text("V1", 0, 30, false),
        ]
    );
}

#[test]
fn current_source_shapes() {
    assert_eq!(
        shapes(Glyph::CurrentSource, "I1", Size(200, 60), false),
        vec![
            line((-100, 0), (-25, 0), 2),
            Shape::Ring { cx: -10, cy: 0, r: 15, filled: false },
            Shape::Ring { cx: 10, cy: 0, r: 15, filled: false },
            line((25, 0), (100, 0), 2),
            text("I1", 0, 30, false),
        ]
    );
}

#[test]
fn open_shapes() {
    assert_eq!(
        shapes(Glyph::Open, "", Size(200, 60), true),
        vec![
            Shape::Ring { cx: -100, cy: 0, r: 5, filled: true },
            Shape::Ring { cx: 100, cy: 0, r: 5, filled: true },
            text("", 30, 5, true),
        ]
    );
    assert_eq!(
        shapes(Glyph::Open, "", Size(-7, 0), false),
        vec![
            Shape::Ring { cx: 3, cy: 0, r: 5, filled: true },
            Shape::Ring { cx: -3, cy: 0, r: 5, filled: true },
            text("", 0, 30, false),
        ]
    );
    assert_eq!(shapes(Glyph::Open, "", Size(i32::MIN, 0), false)[0], Shape::Ring {
        cx: 1 << 30,
        cy: 0,
        r: 5,
        filled: true,
    });
}

#[test]
fn svg_drawer_keeps_what_it_draws() {
    let mut drawer = SvgDrawer::new();
    assert!(drawer.primitives().is_empty());
    let parsed = circuit::sub_circuit("(R1||C2)").unwrap().1;
    parsed.draw(Size(200, 120), at(0, 0), &mut drawer);
    assert_eq!(drawer.primitives(), &recorded(&parsed, Size(200, 120), at(0, 0)));
    assert_eq!(drawer.canvas(), (160 + 60, 120 + 60));
}

#[test]
fn svg_document_holds_every_shape() {
    let mut drawer = SvgDrawer::new();
    drawer.resistor("R1", Position(10, 20), Size(200, 60), false);
    drawer.wire(Position(1, 2), Position(3, 4));
    drawer.junction(Position(5, 6));
    drawer.open("", Position(0, 0), Size(100, 60), true);
    drawer.current_source("I1", Position(0, 0), Size(100, 60), false);
    let text = rendered("shapes", drawer);
    assert!(text.contains("<g transform=\"translate(10,20) rotate(0)\">"));
    assert!(text.contains("<path d=\"M-100,0 L-35,0\" fill=\"none\" stroke=\"black\" stroke-width=\"2\"/>"));
    assert!(text.contains("<rect fill=\"none\" height=\"20\" stroke=\"black\" stroke-width=\"2\" width=\"70\" x=\"-35\" y=\"-10\"/>"));
    assert!(text.contains("<path d=\"M35,0 L100,0\" fill=\"none\" stroke=\"black\" stroke-width=\"2\"/>"));
    assert!(text.contains("<text text-anchor=\"middle\" transform=\"\" x=\"0\" y=\"4\">\nR1\n</text>"));
    assert!(text.contains("<path d=\"M1,2 L3,4\" fill=\"none\" stroke=\"black\" stroke-width=\"2\"/>"));
    assert!(text.contains("<circle cx=\"5\" cy=\"6\" fill=\"black\" r=\"3\"/>"));
    assert!(text.contains("<circle cx=\"-50\" cy=\"0\" fill=\"white\" r=\"5\" stroke=\"black\" stroke-width=\"2\"/>"));
    assert!(text.contains("<circle cx=\"10\" cy=\"0\" fill=\"none\" r=\"15\" stroke=\"black\" stroke-width=\"2\"/>"));
    assert!(text.contains("<text text-anchor=\"middle\" transform=\"rotate(-90)\" x=\"30\" y=\"5\">"));
    let order: Vec<usize> = ["<rect", "M1,2", "cy=\"6\"", "fill=\"white\"", "r=\"15\""]
        .iter()
        .map(|part| text.find(part).unwrap())
        .collect();
    assert!(order.windows(2).all(|pair| pair[0] < pair[1]));
}

#[test]
fn shunt_sub_chain_is_stacked_in_its_slot() {
    let parsed = circuit::twoport("|V1|(-C1-L1)").unwrap().1;
    let size = parsed.layout_size();
    assert_eq!(size, Size(120, 400));
    assert_eq!(
        recorded(&parsed, size, at(0, 0)),
        vec![
            Primitive::Wire(Position(-30, -200), Position(0, -200)),
            Primitive::Wire(Position(-30, 200), Position(0, 200)),
            glyph(Glyph::VoltageSource, "V1", Position(-30, 0), Size(400, 60), true),
            Primitive::Wire(Position(0, -200), Position(30, -200)),
            Primitive::Wire(Position(0, 200), Position(30, 200)),
            glyph(Glyph::Capacitor, "C1", Position(30, -100), Size(200, 60), true),
            glyph(Glyph::Inductor, "L1", Position(30, 100), Size(200, 60), true),
        ]
    );
}
