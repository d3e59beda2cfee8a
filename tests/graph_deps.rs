use graph_deps::graph::{BuildError, DepGraph};
use graph_deps::manifest::{Package, VersionSpec};
use graph_deps::render::{decimal, node_id, render};

fn text(s: &str) -> VersionSpec {
    VersionSpec::Text(s.to_string())
}

fn manifest(name: &str, version: &str, deps: &[(&str, VersionSpec)]) -> Package {
    let mut p = Package::new_with_data(name, version);
    for (n, v) in deps {
        let v = match v {
            VersionSpec::Text(s) => VersionSpec::Text(s.clone()),
            VersionSpec::Other => VersionSpec::Other,
        };
        p.dependencies.push((n.to_string(), v));
    }
    p
}

#[test]
fn single_dependency_document() {
    let mut g = DepGraph::new();
    let p = manifest("a", "1.0.0", &[("b", text("2.0.0"))]);
    let root = p.graph_deps(&mut g);
    assert!(matches!(root, Ok(0)));
    assert_eq!(g.node_count(), 2);
    assert_eq!(g.edge_count(), 1);
    let (n0, v0) = g.node(0);
    assert_eq!((n0.as_str(), v0.as_str()), ("a", "1.0.0"));
    let (n1, v1) = g.node(1);
    assert_eq!((n1.as_str(), v1.as_str()), ("b", "2.0.0"));
    assert_eq!(g.edge(0), (0, 1, "dependency"));
    assert_eq!(
        render(&g),
        "digraph package {\n    N0[label=\"a: 1.0.0\"];\n    N1[label=\"b: 2.0.0\"];\n    N0 -> N1[label=\"dependency\"];\n}\n"
    );
}

#[test]
fn structured_version_is_rejected() {
    let mut g = DepGraph::new();
    let p = manifest("a", "1.0.0", &[("b", VersionSpec::Other)]);
    match p.graph_deps(&mut g) {
        Err(BuildError::InvalidDependencyVersion(name)) => assert_eq!(name, "b"),
        _ => panic!("expected an invalid dependency version"),
    }
    assert_eq!(g.node_count(), 0);
    assert_eq!(g.edge_count(), 0);
}

#[test]
fn first_structured_version_is_named() {
    let mut g = DepGraph::new();
    let p = manifest(
        "a",
        "1.0.0",
        &[("b", text("1")), ("c", VersionSpec::Other), ("d", VersionSpec::Other)],
    );
    match p.graph_deps(&mut g) {
        Err(BuildError::InvalidDependencyVersion(name)) => assert_eq!(name, "c"),
        _ => panic!("expected an invalid dependency version"),
    }
    assert_eq!(g.node_count(), 0);
}

#[test]
fn two_manifests_number_nodes_in_order() {
    let mut g = DepGraph::new();
    let r1 = manifest("a", "1.0.0", &[("b", text("2.0.0"))]).graph_deps(&mut g);
    let r2 = manifest("c", "3.0.0", &[("d", text("4.0.0"))]).graph_deps(&mut g);
    assert!(matches!(r1, Ok(0)));
    assert!(matches!(r2, Ok(2)));
    assert_eq!(g.node_count(), 4);
    assert_eq!(g.edge_count(), 2);
    let names: Vec<String> = (0..4).map(|i| g.node(i).0.clone()).collect();
    assert_eq!(names, vec!["a", "b", "c", "d"]);
    assert_eq!(g.edge(0), (0, 1, "dependency"));
    assert_eq!(g.edge(1), (2, 3, "dependency"));
}

#[test]
fn empty_dependencies_give_one_node() {
    let mut g = DepGraph::new();
    let r = manifest("solo", "0.1.0", &[]).graph_deps(&mut g);
    assert!(matches!(r, Ok(0)));
    assert_eq!(g.node_count(), 1);
    assert_eq!(g.edge_count(), 0);
    assert_eq!(render(&g), "digraph package {\n    N0[label=\"solo: 0.1.0\"];\n}\n");
}

#[test]
fn empty_graph_document() {
    let g = DepGraph::new();
    assert_eq!(render(&g), "digraph package {\n}\n");
}

#[test]
fn k_dependencies_give_k_edges_from_root() {
    let mut g = DepGraph::new();
    let p = manifest("a", "1", &[("b", text("1")), ("c", text("2")), ("d", text("3"))]);
    assert!(matches!(p.graph_deps(&mut g), Ok(0)));
    assert_eq!(g.node_count(), 4);
    assert_eq!(g.edge_count(), 3);
    for i in 0..3 {
        assert_eq!(g.edge(i), (0, i + 1, "dependency"));
    }
}

#[test]
fn dev_dependencies_add_nothing() {
    let mut g = DepGraph::new();
    let mut p = manifest("a", "1.0.0", &[("b", text("2.0.0"))]);
    p.dev_dependencies.push(("t".to_string(), text("9.9.9")));
    p.dev_dependencies.push(("u".to_string(), VersionSpec::Other));
    assert!(matches!(p.graph_deps(&mut g), Ok(0)));
    assert_eq!(g.node_count(), 2);
    assert_eq!(g.edge_count(), 1);
}

#[test]
fn same_run_gives_same_document() {
    let build = || {
        let mut g = DepGraph::new();
        let _ = manifest("a", "1", &[("b", text("2")), ("c", text("3"))]).graph_deps(&mut g);
        let _ = manifest("a", "1", &[("b", text("2"))]).graph_deps(&mut g);
        g
    };
    let first = render(&build());
    let second = render(&build());
    assert_eq!(first, second);
    assert!(first.contains("    N3[label=\"a: 1\"];\n"));
    assert!(first.contains("    N3 -> N4[label=\"dependency\"];\n"));
}

#[test]
fn labels_are_escaped() {
    let mut g = DepGraph::new();
    let _ = manifest("we\"ird", "1\n", &[]).graph_deps(&mut g);
    assert_eq!(render(&g), "digraph package {\n    N0[label=\"we\\\"ird: 1\\n\"];\n}\n");
}

#[test]
fn decimal_numerals() {
    assert_eq!(decimal(0), "0");
    assert_eq!(decimal(7), "7");
    assert_eq!(decimal(10), "10");
    assert_eq!(decimal(1234567890), "1234567890");
    assert_eq!(node_id(12), "N12");
}

#[test]
fn empty_package() {
    let p = Package::new();
    assert_eq!(p.name, "");
    assert_eq!(p.version, "");
    assert!(p.dependencies.is_empty());
    assert!(p.dev_dependencies.is_empty());
}

#[test]
fn version_coercion() {
    assert_eq!(text("1.2").as_text().map(|s| s.as_str()), Some("1.2"));
    assert!(VersionSpec::Other.as_text().is_none());
}
