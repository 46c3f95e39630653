use treeify::gexf::Attributes as GexfAttributes;
use treeify::graph::Graph;
use treeify::graphml::Data;
use treeify::graphviz::Attributes;
use treeify::model::{Key, Node};
use treeify::text::encode;

fn node(sbom: &str, id: &str, rel: Option<&str>, descendants: Vec<Node>) -> Node {
    Node {
        sbom_id: sbom.to_string(),
        node_id: id.to_string(),
        purl: vec![],
        cpe: vec![],
        name: id.to_string(),
        published: "p".to_string(),
        document_id: "d".to_string(),
        product_name: None,
        product_version: None,
        relationship: rel.map(|r| r.to_string()),
        ancestors: vec![],
        descendants,
    }
}

const DOT_HEADER: &str = "\ndigraph {\n  concentrate=true;\n  rankdir=\"LR\";\n  overlap=false;\n  newrank=true;\n  compound=true;\n  splines=polyline;\n\n\n";

#[test]
fn dot_escapes_quote_and_backslash() {
    assert_eq!(encode("a\"b\\c"), "a\\\"b\\\\c");
    assert_eq!(encode("plain"), "plain");
    assert_eq!(encode(""), "");
}

#[test]
fn key_encode_escapes_each_part() {
    let k = Key { sbom: "s\"1".to_string(), node: "n\\1".to_string() };
    assert_eq!(k.encode(), "s\\\"1--n\\\\1");
}

#[test]
fn dot_attributes_render_and_replace() {
    let a = Attributes::new().add("label".to_string(), "x".to_string()).add("shape".to_string(), "box".to_string());
    assert_eq!(a.to_text(), "[\"label\" = \"x\" \"shape\" = \"box\" ]");
    let a = a.add("label".to_string(), "y".to_string());
    assert_eq!(a.data.len(), 2);
    assert_eq!(a.to_text(), "[\"label\" = \"y\" \"shape\" = \"box\" ]");
    let s = Attributes::subgraph().add("cluster".to_string(), "true".to_string());
    assert_eq!(s.to_text(), "\"cluster\" = \"true\" ;\n");
    assert_eq!(Attributes::new().to_text(), "[]");
}

#[test]
fn dot_empty_graph() {
    let g = Graph::new(&[]);
    assert_eq!(g.render_grapviz(), format!("{DOT_HEADER}\n}}\n\n"));
}

#[test]
fn dot_one_edge() {
    let d = node("s1", "d", Some("depends_on"), vec![]);
    let r = node("s1", "r", None, vec![d]);
    let g = Graph::new(&[r]);
    let expected = format!(
        "{DOT_HEADER}\nsubgraph \"s1\" {{\n\"cluster\" = \"true\" ;\n\"label\" = \"d / p / s1\" ;\n\n\n  \"s1--r\" [\"label\" = \"r\" \"shape\" = \"box\" ]\n  \"s1--d\" [\"label\" = \"d\" \"shape\" = \"box\" ]\n\n}}\n\n  \"s1--r\" -> \"s1--d\" [\"group\" = \"s1-s1\" \"label\" = \"depends_on\" ]\n\n}}\n\n"
    );
    assert_eq!(g.render_grapviz(), expected);
}

#[test]
fn dot_escapes_node_ids() {
    let r = node("s1", "a\"b\\c", None, vec![]);
    let g = Graph::new(&[r]);
    let out = g.render_grapviz();
    assert!(out.contains("  \"s1--a\\\"b\\\\c\" [\"label\" = \"a\\\"b\\\\c\" \"shape\" = \"box\" ]\n"));
}

#[test]
fn graphml_empty_graph() {
    let g = Graph::new(&[]);
    let out = g.render_graphml();
    assert!(out.starts_with("<graphml xmlns=\"http://graphml.graphdrawing.org/xmlns\"><key id=\"Name\" for=\"node\" attr.name=\"Name\" attr.type=\"string\"/>"));
    assert!(out.ends_with("<key id=\"Relationship\" for=\"edge\" attr.name=\"Relationship\" attr.type=\"string\"/><graph id=\"ID\" edgedefault=\"directed\"/></graphml>"));
    assert_eq!(out.matches("<key ").count(), 6);
}

#[test]
fn graphml_one_edge() {
    let d = node("s1", "d", Some("depends_on"), vec![]);
    let r = node("s1", "r", None, vec![d]);
    let g = Graph::new(&[r]);
    let out = g.render_graphml();
    let body = "<graph id=\"ID\" edgedefault=\"directed\"><node id=\"s1\"><graph id=\"s1\" edgedefault=\"directed\"><node id=\"s1--r\"><data key=\"Name\">r</data><data key=\"SbomId\">s1</data><data key=\"DocumentId\">d</data></node><node id=\"s1--d\"><data key=\"Name\">d</data><data key=\"SbomId\">s1</data><data key=\"DocumentId\">d</data></node></graph><data key=\"DocumentId\">d</data></node><edge source=\"s1--r\" target=\"s1--d\"><data key=\"Relationship\">depends_on</data></edge></graph></graphml>";
    assert!(out.ends_with(body), "{out}");
}

#[test]
fn graphml_purls_fan_out() {
    let mut r = node("s1", "r", None, vec![]);
    r.purl = vec!["pkg:a".to_string(), "pkg:b".to_string()];
    r.cpe = vec!["cpe:x".to_string()];
    let out = Graph::new(&[r]).render_graphml();
    assert_eq!(out.matches("<data key=\"Purl\">").count(), 2);
    assert!(out.contains("<data key=\"Cpe\">cpe:x</data><data key=\"Purl\">pkg:a</data><data key=\"Purl\">pkg:b</data>"));
}

#[test]
fn graphml_escapes_once() {
    let mut r = node("s1", "r", None, vec![]);
    r.name = "a\"b\\c<&>".to_string();
    let out = Graph::new(&[r]).render_graphml();
    assert!(out.contains("<data key=\"Name\">a&quot;b\\c&lt;&amp;&gt;</data>"), "{out}");
}

#[test]
fn gexf_empty_graph() {
    let out = Graph::new(&[]).render_gexf_at("2024-01-01T00:00:00Z");
    assert_eq!(
        out,
        "<gexf version=\"1.3\" xmlns=\"http://gexf.net/1.3\"><meta lastmodifieddate=\"2024-01-01T00:00:00Z\"><creator>treeify</creator></meta><graph mode=\"static\" defaultedgetype=\"directed\"><attributes class=\"node\"><attribute id=\"SbomId\" title=\"SBOM ID\" type=\"string\"/><attribute id=\"DocumentId\" title=\"Document ID\" type=\"string\"/><attribute id=\"Cpe\" title=\"CPE\" type=\"liststring\"/><attribute id=\"Purl\" title=\"PURL\" type=\"liststring\"/></attributes></graph></gexf>"
    );
}

#[test]
fn gexf_one_edge() {
    let d = node("s1", "d", Some("depends_on"), vec![]);
    let r = node("s1", "r", None, vec![d]);
    let out = Graph::new(&[r]).render_gexf_at("t");
    let tail = "<nodes><node id=\"s1--r\" label=\"r\"><attvalues><attvalue for=\"SbomId\" value=\"s1\"/><attvalue for=\"DocumentId\" value=\"d\"/></attvalues></node><node id=\"s1--d\" label=\"d\"><attvalues><attvalue for=\"SbomId\" value=\"s1\"/><attvalue for=\"DocumentId\" value=\"d\"/></attvalues></node></nodes><edges><edge source=\"s1--r\" target=\"s1--d\" label=\"depends_on\"/></edges></graph></gexf>";
    assert!(out.ends_with(tail), "{out}");
}

#[test]
fn gexf_purls_fan_out() {
    let mut r = node("s1", "r", None, vec![]);
    r.purl = vec!["pkg:a".to_string(), "pkg:b".to_string()];
    let out = Graph::new(&[r]).render_gexf_at("t");
    assert_eq!(out.matches("<attvalue for=\"Purl\"").count(), 2);
    assert!(out.contains("<attvalue for=\"Purl\" value=\"pkg:a\"/><attvalue for=\"Purl\" value=\"pkg:b\"/>"));
}

#[test]
fn gexf_escapes_once() {
    let mut r = node("s1", "r", None, vec![]);
    r.name = "a\"b\\c&".to_string();
    let out = Graph::new(&[r]).render_gexf_at("t");
    assert!(out.contains("label=\"a&quot;b\\c&amp;\""), "{out}");
}

#[test]
fn gexf_with_current_time() {
    let out = Graph::new(&[]).render_gexf().expect("current time formats");
    assert!(out.starts_with("<gexf version=\"1.3\" xmlns=\"http://gexf.net/1.3\"><meta lastmodifieddate=\""));
    assert!(out.ends_with("</graph></gexf>"));
}

#[test]
fn graphml_data_builder() {
    let v = Data::new()
        .add("Name", "n")
        .extend("Purl", &vec!["a".to_string(), "b".to_string()])
        .into_vec();
    assert_eq!(v.len(), 3);
    assert_eq!(v[0].key, "Name");
    assert_eq!(v[2].key, "Purl");
    assert_eq!(v[2].value, "b");
}

#[test]
fn gexf_attributes_builder() {
    let a = GexfAttributes::new()
        .add("SbomId", "s")
        .extend("Cpe", &vec!["x".to_string(), "y".to_string()]);
    assert_eq!(a.attribute.len(), 3);
    assert_eq!(a.attribute[1].for_id, "Cpe");
    assert_eq!(a.attribute[2].value, "y");
}
