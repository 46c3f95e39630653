use treeify::graph::Graph;
use treeify::model::{Key, Node};

fn node(sbom: &str, id: &str, rel: Option<&str>, ancestors: Vec<Node>, descendants: Vec<Node>) -> Node {
    Node {
        sbom_id: sbom.to_string(),
        node_id: id.to_string(),
        purl: vec![],
        cpe: vec![],
        name: format!("name-{id}"),
        published: format!("pub-{sbom}"),
        document_id: format!("doc-{sbom}"),
        product_name: None,
        product_version: None,
        relationship: rel.map(|r| r.to_string()),
        ancestors,
        descendants,
    }
}

fn edges(g: &Graph) -> Vec<(String, String, String, String, String)> {
    let mut v: Vec<_> = g
        .relationships
        .iter()
        .map(|r| {
            (
                r.from.sbom.clone(),
                r.from.node.clone(),
                r.to.sbom.clone(),
                r.to.node.clone(),
                r.label.clone(),
            )
        })
        .collect();
    v.sort();
    v
}

fn e(a: &str, b: &str, c: &str, d: &str, l: &str) -> (String, String, String, String, String) {
    (a.to_string(), b.to_string(), c.to_string(), d.to_string(), l.to_string())
}

#[test]
fn descendant_edge_points_from_parent() {
    let d = node("s1", "d", Some("depends_on"), vec![], vec![]);
    let r = node("s1", "r", None, vec![], vec![d]);
    let g = Graph::new(&[r]);
    assert_eq!(edges(&g), vec![e("s1", "r", "s1", "d", "depends_on")]);
}

#[test]
fn ancestor_edge_points_to_parent() {
    let a = node("s1", "a", Some("contains"), vec![], vec![]);
    let r = node("s1", "r", None, vec![a], vec![]);
    let g = Graph::new(&[r]);
    assert_eq!(edges(&g), vec![e("s1", "a", "s1", "r", "contains")]);
}

#[test]
fn shared_descendant_is_stored_once_with_two_edges() {
    let d1 = node("s2", "d", Some("uses"), vec![], vec![]);
    let d2 = node("s2", "d", Some("uses"), vec![], vec![]);
    let r1 = node("s1", "r1", None, vec![], vec![d1]);
    let r2 = node("s1", "r2", None, vec![], vec![d2]);
    let g = Graph::new(&[r1, r2]);
    let ds: Vec<_> = g.nodes.iter().filter(|c| c.sbom_id == "s2" && c.node_id == "d").collect();
    assert_eq!(ds.len(), 1);
    assert_eq!(g.nodes.len(), 3);
    assert_eq!(
        edges(&g),
        vec![e("s1", "r1", "s2", "d", "uses"), e("s1", "r2", "s2", "d", "uses")]
    );
    assert_eq!(g.sboms.len(), 2);
}

#[test]
fn empty_input_gives_empty_graph() {
    let g = Graph::new(&[]);
    assert!(g.sboms.is_empty());
    assert!(g.nodes.is_empty());
    assert!(g.relationships.is_empty());
}

#[test]
fn first_sbom_metadata_wins_and_last_node_wins() {
    let mut late = node("s1", "x", Some("rel"), vec![], vec![]);
    late.document_id = "other-doc".to_string();
    late.name = "late".to_string();
    let r = node("s1", "x", None, vec![], vec![late]);
    let g = Graph::new(&[r]);
    assert_eq!(g.sboms.len(), 1);
    assert_eq!(g.sboms[0].document_id, "doc-s1");
    assert_eq!(g.nodes.len(), 1);
    assert_eq!(g.nodes[0].name, "late");
    assert_eq!(edges(&g), vec![e("s1", "x", "s1", "x", "rel")]);
}

#[test]
fn node_without_relationship_adds_no_edge() {
    let d = node("s1", "d", None, vec![], vec![]);
    let r = node("s1", "r", Some("ignored"), vec![], vec![d]);
    let g = Graph::new(&[r]);
    assert!(g.relationships.is_empty());
    assert_eq!(g.nodes.len(), 2);
}

#[test]
fn later_label_overwrites_same_edge() {
    let d1 = node("s1", "d", Some("first"), vec![], vec![]);
    let d2 = node("s1", "d", Some("second"), vec![], vec![]);
    let r = node("s1", "r", None, vec![], vec![d1, d2]);
    let g = Graph::new(&[r]);
    assert_eq!(edges(&g), vec![e("s1", "r", "s1", "d", "second")]);
}

#[test]
fn nested_trees_are_walked() {
    let deep = node("s3", "deep", Some("below"), vec![], vec![]);
    let up = node("s2", "up", Some("above"), vec![], vec![deep]);
    let r = node("s1", "r", None, vec![up], vec![]);
    let g = Graph::new(&[r]);
    assert_eq!(
        edges(&g),
        vec![e("s2", "up", "s1", "r", "above"), e("s2", "up", "s3", "deep", "below")]
    );
    assert_eq!(g.sboms.len(), 3);
}

#[test]
fn building_twice_gives_the_same_graph() {
    let mk = || {
        let d = node("s1", "d", Some("depends_on"), vec![], vec![]);
        let a = node("s2", "a", Some("contains"), vec![], vec![]);
        node("s1", "r", None, vec![a], vec![d])
    };
    let g1 = Graph::new(&[mk()]);
    let g2 = Graph::new(&[mk()]);
    assert_eq!(edges(&g1), edges(&g2));
    let keys = |g: &Graph| {
        let mut k: Vec<_> = g.nodes.iter().map(|c| (c.sbom_id.clone(), c.node_id.clone())).collect();
        k.sort();
        k
    };
    assert_eq!(keys(&g1), keys(&g2));
}

#[test]
fn key_canonical_string() {
    let k = Key { sbom: "s1".to_string(), node: "n1".to_string() };
    assert_eq!(k.canonical_string(), "s1--n1");
    let n = node("a", "b", None, vec![], vec![]);
    assert_eq!(n.as_key().canonical_string(), "a--b");
}
