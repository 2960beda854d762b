use rsdg::kdg::build_model;
use rsdg::resource::{BasicNode, Knob, KnobLayer, Resource};

fn node(name: &str, cost: &str, quality: &str, edges: &[&str]) -> BasicNode {
    BasicNode {
        name: name.to_string(),
        cost: cost.to_string(),
        quality: quality.to_string(),
        edges: edges.iter().map(|e| e.to_string()).collect(),
    }
}

fn knob(name: &str, layers: Vec<Vec<BasicNode>>) -> Knob {
    Knob {
        knob_name: name.to_string(),
        layers: layers
            .into_iter()
            .map(|basic_nodes| KnobLayer { basic_nodes })
            .collect(),
    }
}

fn single_knob_resource() -> Resource {
    Resource {
        knobs: vec![knob("S1", vec![vec![node("S1_0", "10", "10", &[])]])],
    }
}

fn cross_layer_resource() -> Resource {
    Resource {
        knobs: vec![knob(
            "S2",
            vec![
                vec![node("S2_0", "10", "10", &["S1_0", "S1_1", "S1_2"])],
                vec![node("S2_1", "20", "20", &["S1_2", "S1_3"])],
            ],
        )],
    }
}

#[test]
fn empty_resource_model() {
    let text = build_model(Resource { knobs: Vec::new() }, "42");
    assert_eq!(
        text,
        "Maximize\n\t\nSubject To\n\tcost:  <= 42\n\t\n\t\nBinary\n\t\nEnd"
    );
}

#[test]
fn single_knob_single_node() {
    let text = build_model(single_knob_resource(), "10");
    assert_eq!(
        text,
        "Maximize\n\
         \t10 S1_0\n\
         Subject To\n\
         \tcost: 10 S1_0 <= 10\n\
         \tS1.Select: S1_0 = 1\n\
         \t\n\
         Binary\n\
         \tS1_0\n\
         End"
    );
}

#[test]
fn cross_layer_edges() {
    let text = build_model(cross_layer_resource(), "30");
    assert_eq!(
        text,
        "Maximize\n\
         \t10 S2_0 + 20 S2_1\n\
         Subject To\n\
         \tcost: 10 S2_0 + 20 S2_1 <= 30\n\
         \tS2.Select: S2_0 + S2_1 = 1\n\
         \tS1_0.S2_0: S2_0 - S1_0 <= 0\n\
         \tS1_1.S2_0: S2_0 - S1_1 <= 0\n\
         \tS1_2.S2_0: S2_0 - S1_2 <= 0\n\
         \tS1_2.S2_1: S2_1 - S1_2 <= 0\n\
         \tS1_3.S2_1: S2_1 - S1_3 <= 0\n\
         Binary\n\
         \tS2_0 S2_1\n\
         End"
    );
}

#[test]
fn multiple_knobs_concatenate_in_order() {
    let resource = Resource {
        knobs: vec![
            knob("A", vec![vec![node("A_0", "1", "2", &[])]]),
            knob(
                "B",
                vec![vec![node("B_0", "3", "4", &[]), node("B_1", "5", "6", &[])]],
            ),
        ],
    };
    let text = build_model(resource, "9");
    assert_eq!(
        text,
        "Maximize\n\
         \t2 A_0 + 4 B_0 + 6 B_1\n\
         Subject To\n\
         \tcost: 1 A_0 + 3 B_0 + 5 B_1 <= 9\n\
         \tA.Select: A_0 = 1\n\
         \tB.Select: B_0 + B_1 = 1\n\
         \t\n\
         Binary\n\
         \tA_0 B_0 B_1\n\
         End"
    );
}

#[test]
fn rebuild_is_byte_identical() {
    let first = build_model(cross_layer_resource(), "30");
    let second = build_model(cross_layer_resource(), "30");
    assert_eq!(first, second);
}

#[test]
fn objective_term_count_matches_node_count() {
    let resource = Resource {
        knobs: vec![
            knob(
                "K1",
                vec![
                    vec![node("K1_0", "1", "1", &[]), node("K1_1", "2", "2", &[])],
                    vec![node("K1_2", "3", "3", &[])],
                ],
            ),
            knob("K2", vec![vec![node("K2_0", "4", "4", &[])]]),
        ],
    };
    let text = build_model(resource, "5");
    let objective = text.lines().nth(1).unwrap().trim_start_matches('\t');
    assert_eq!(objective.split(" + ").count(), 4);
}

#[test]
fn knob_selection_line_lists_each_name_once() {
    let text = build_model(cross_layer_resource(), "30");
    let selection = text
        .lines()
        .find(|l| l.contains(".Select:"))
        .unwrap()
        .trim_start_matches('\t');
    assert_eq!(selection, "S2.Select: S2_0 + S2_1 = 1");
    assert!(selection.ends_with(" = 1"));
    assert_eq!(selection.matches("S2_0").count(), 1);
    assert_eq!(selection.matches("S2_1").count(), 1);
}

#[test]
fn one_edge_line_per_declared_edge() {
    let text = build_model(cross_layer_resource(), "30");
    assert_eq!(text.matches(": S2_0 - ").count(), 3);
    assert_eq!(text.matches(": S2_1 - ").count(), 2);
}
