use circmark_parse::circuit;
use circmark_parse::layout::{
    element_size, Layout, Position, Size, ELEMENT_HEIGHT, ELEMENT_WIDTH,
};

fn r(id: &str) -> circuit::SubCircuit<'_> {
    circuit::SubCircuit::Element(circuit::Element::R(id))
}

fn group(group: circuit::SubCircuitGroup<'_>) -> circuit::SubCircuit<'_> {
    circuit::SubCircuit::Group(Box::new(group))
}

#[test]
fn layout_test_element() {
    assert_eq!(circuit::Element::R("1").layout_size(), element_size());
}

#[test]
fn test_group_series() {
    assert_eq!(circuit::SubCircuitGroup::Series(
        circuit::SubCircuit::Element(circuit::Element::R("1")),
        circuit::SubCircuit::Element(circuit::Element::R("2")),
    ).layout_size(), Size(ELEMENT_WIDTH * 2, ELEMENT_HEIGHT));
}

#[test]
fn test_group_parallel() {
    assert_eq!(circuit::SubCircuitGroup::Parallel(
        circuit::SubCircuit::Element(circuit::Element::R("1")),
        circuit::SubCircuit::Element(circuit::Element::R("2")),
    ).layout_size(), Size(ELEMENT_WIDTH, ELEMENT_HEIGHT * 2));
}

#[test]
fn test_group_parallel_with_series_element() {
    assert_eq!(circuit::SubCircuitGroup::Parallel(
        circuit::SubCircuit::Element(circuit::Element::R("1")),
        circuit::SubCircuit::Group(Box::new(circuit::SubCircuitGroup::Series(
            circuit::SubCircuit::Element(circuit::Element::R("2")),
            circuit::SubCircuit::Element(circuit::Element::R("3")),
        )))
    ).layout_size(), Size(ELEMENT_WIDTH * 2, ELEMENT_HEIGHT * 2));
}

#[test]
fn element_size_is_fixed() {
    assert_eq!(element_size(), Size(200, 60));
    assert_eq!((ELEMENT_WIDTH, ELEMENT_HEIGHT), (200, 60));
    assert_eq!(circuit::Element::Open.layout_size(), Size(200, 60));
    assert_eq!(circuit::Element::C("1").layout_size(), Size(200, 60));
    assert_eq!(circuit::Element::I("long").checked_layout_size(), Some(Size(200, 60)));
    assert_eq!(r("1").layout_size(), Size(200, 60));
}

#[test]
fn sizes_add_up() {
    let a = group(circuit::SubCircuitGroup::Series(r("1"), r("2")));
    let b = group(circuit::SubCircuitGroup::Parallel(r("3"), r("4")));
    assert_eq!(a.layout_size(), Size(400, 60));
    assert_eq!(b.layout_size(), Size(200, 120));
    let series = circuit::SubCircuitGroup::Series(a, b);
    assert_eq!(series.layout_size(), Size(400 + 200, 120));
    assert_eq!(series.checked_layout_size(), Some(Size(600, 120)));
    let a = group(circuit::SubCircuitGroup::Series(r("1"), r("2")));
    let b = group(circuit::SubCircuitGroup::Parallel(r("3"), r("4")));
    let parallel = circuit::SubCircuitGroup::Parallel(a, b);
    assert_eq!(parallel.layout_size(), Size(400, 60 + 120));
    assert_eq!(circuit::SubCircuitGroup::Single(r("1")).layout_size(), Size(200, 60));
    assert_eq!(group(parallel).layout_size(), Size(400, 180));
}

#[test]
fn parsed_sizes() {
    let parsed = circuit::sub_circuit("((R1+R2||R3)+R4)").unwrap().1;
    assert_eq!(parsed.layout_size(), Size(600, 120));
    let parsed = circuit::sub_circuit("(R1||R2||R3)").unwrap().1;
    assert_eq!(parsed.layout_size(), Size(200, 180));
}

#[test]
fn shunt_link_is_turned() {
    assert_eq!(circuit::TwoportLink::Series(r("1")).layout_size(), Size(200, 60));
    assert_eq!(circuit::TwoportLink::Shunt(r("1")).layout_size(), Size(60, 200));
    let wide = group(circuit::SubCircuitGroup::Series(r("1"), r("2")));
    assert_eq!(circuit::TwoportLink::Shunt(wide).checked_layout_size(), Some(Size(60, 400)));
}

#[test]
fn twoport_lays_links_side_by_side() {
    let parsed = circuit::twoport("|O-R1|O").unwrap().1;
    assert_eq!(parsed.layout_size(), Size(60 + 200 + 60, 200));
    assert_eq!(parsed.checked_layout_size(), Some(Size(320, 200)));
    let parsed = circuit::twoport("-R1-(R2||R3)").unwrap().1;
    assert_eq!(parsed.layout_size(), Size(400, 120));
    assert_eq!(circuit::Twoport { links: vec![] }.layout_size(), Size(0, 0));
    let parsed = circuit::document("|O-((L1+R1)||C1)|O").unwrap().1;
    assert_eq!(parsed.layout_size(), Size(60 + 400 + 60, 200));
    let parsed = circuit::document("(R1+R2)").unwrap().1;
    assert_eq!(parsed.checked_layout_size(), Some(Size(400, 60)));
}

#[test]
fn tall_and_long_circuits() {
    let mut parallel = r("0");
    for _ in 0..5000 {
        parallel = group(circuit::SubCircuitGroup::Parallel(r("1"), parallel));
    }
    assert_eq!(parallel.checked_layout_size(), Some(Size(200, 60 * 5001)));
    let mut links = Vec::new();
    for _ in 0..8000 {
        let mut tower = r("0");
        for _ in 0..4 {
            tower = group(circuit::SubCircuitGroup::Parallel(r("1"), tower));
        }
        links.push(circuit::TwoportLink::Shunt(tower));
    }
    let twoport = circuit::Twoport { links };
    assert_eq!(twoport.checked_layout_size(), Some(Size(8000 * 300, 200)));
    assert_eq!(twoport.layout_size(), Size(2_400_000, 200));
}

#[test]
fn positions() {
    assert_eq!(Position::zero(), Position(0, 0));
    assert_eq!(Position::default(), Position(0, 0));
}
