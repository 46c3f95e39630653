use vstd::prelude::*;

use crate::graph::{build, edge_ends, empty_graph, scan, visit, FlatGraph, Graph};
use crate::graph::component_key;
use crate::gexf::{component_values, gexf_attributes, gexf_doc, repeated, Attr};
use crate::graphml::{component_data, fan_out, graphml_doc, graphml_keys, NodeAttr};
use crate::graph::Component;
use crate::graphviz::{graphviz_doc, graphviz_header};
use crate::model::{KeyView, Node};
use crate::xml::xml_attr;

verus! {

/// `b` holds every SBOM id, node key and edge of `a`.
pub open spec fn grows(a: FlatGraph, b: FlatGraph) -> bool {
    &&& a.sboms.dom().subset_of(b.sboms.dom())
    &&& a.nodes.dom().subset_of(b.nodes.dom())
    &&& a.relationships.dom().subset_of(b.relationships.dom())
}

/// Walking more nodes never removes anything from the graph.
pub proof fn lemma_scan_grows(g: FlatGraph, ns: Seq<Node>, parent: Option<KeyView>, reverse: bool)
    ensures
        grows(g, scan(g, ns, parent, reverse)),
    decreases ns,
{
    if ns.len() > 0 {
        let n = ns.last();
        let g0 = scan(g, ns.drop_last(), parent, reverse);
        let g1 = visit(g0, n, parent, reverse);
        let g2 = scan(g1, n.ancestors@, Some(n.key()), true);
        lemma_scan_grows(g, ns.drop_last(), parent, reverse);
        lemma_scan_grows(g1, n.ancestors@, Some(n.key()), true);
        lemma_scan_grows(g2, n.descendants@, Some(n.key()), false);
    }
}

/// Each listed node that carries a relationship leaves an edge to or from its
/// parent: from the node when it is an ancestor, to it when a descendant.
pub proof fn lemma_scan_links(
    g: FlatGraph,
    ns: Seq<Node>,
    parent: KeyView,
    reverse: bool,
    i: int,
)
    requires
        0 <= i < ns.len(),
        ns[i].relationship is Some,
    ensures
        scan(g, ns, Some(parent), reverse).relationships.contains_key(
            edge_ends(ns[i], parent, reverse),
        ),
    decreases ns,
{
    let n = ns.last();
    let g0 = scan(g, ns.drop_last(), Some(parent), reverse);
    let g1 = visit(g0, n, Some(parent), reverse);
    let g2 = scan(g1, n.ancestors@, Some(n.key()), true);
    lemma_scan_grows(g1, n.ancestors@, Some(n.key()), true);
    lemma_scan_grows(g2, n.descendants@, Some(n.key()), false);
    if i < ns.len() - 1 {
        lemma_scan_links(g, ns.drop_last(), parent, reverse, i);
        assert(ns.drop_last()[i] == ns[i]);
    }
}

/// The children of every node in `ns` are linked to it: each ancestor `a`
/// with a relationship by the edge `(a, n)`, each such descendant `d` by
/// `(n, d)`.
pub proof fn lemma_scan_child_links(
    g: FlatGraph,
    ns: Seq<Node>,
    parent: Option<KeyView>,
    reverse: bool,
    i: int,
)
    requires
        0 <= i < ns.len(),
    ensures
        forall|j: int|
            0 <= j < ns[i].ancestors@.len() && (#[trigger] ns[i].ancestors@[j]).relationship is Some
                ==> scan(g, ns, parent, reverse).relationships.contains_key(
                (ns[i].ancestors@[j].key(), ns[i].key()),
            ),
        forall|j: int|
            0 <= j < ns[i].descendants@.len() && (#[trigger] ns[i].descendants@[j]).relationship
                is Some ==> scan(g, ns, parent, reverse).relationships.contains_key(
                (ns[i].key(), ns[i].descendants@[j].key()),
            ),
    decreases ns,
{
    let n = ns.last();
    let g0 = scan(g, ns.drop_last(), parent, reverse);
    let g1 = visit(g0, n, parent, reverse);
    let g2 = scan(g1, n.ancestors@, Some(n.key()), true);
    let g3 = scan(g2, n.descendants@, Some(n.key()), false);
    lemma_scan_grows(g1, n.ancestors@, Some(n.key()), true);
    lemma_scan_grows(g2, n.descendants@, Some(n.key()), false);
    if i < ns.len() - 1 {
        lemma_scan_child_links(g, ns.drop_last(), parent, reverse, i);
        assert(ns.drop_last()[i] == ns[i]);
    } else {
        assert forall|j: int|
            0 <= j < n.ancestors@.len() && (#[trigger] n.ancestors@[j]).relationship is Some
                implies g3.relationships.contains_key((n.ancestors@[j].key(), n.key())) by {
            lemma_scan_links(g1, n.ancestors@, n.key(), true, j);
        }
        assert forall|j: int|
            0 <= j < n.descendants@.len() && (#[trigger] n.descendants@[j]).relationship is Some
                implies g3.relationships.contains_key((n.key(), n.descendants@[j].key())) by {
            lemma_scan_links(g2, n.descendants@, n.key(), false, j);
        }
    }
}

/// Building is deterministic: two graphs built from the same roots hold the
/// same SBOMs, nodes and edges; only the order of their lists may differ.
pub proof fn law_build_deterministic(roots: Seq<Node>, a: Graph, b: Graph)
    requires
        a@ == build(roots),
        b@ == build(roots),
    ensures
        a@.sboms == b@.sboms,
        a@.nodes == b@.nodes,
        a@.relationships == b@.relationships,
{
}

/// Edge direction: an ancestor `a` of a root `r` that carries a relationship
/// gives the edge `(a, r)`; such a descendant `d` gives `(r, d)`.
pub proof fn law_edge_direction(roots: Seq<Node>, i: int)
    requires
        0 <= i < roots.len(),
    ensures
        forall|j: int|
            0 <= j < roots[i].ancestors@.len() && (#[trigger] roots[i].ancestors@[j]).relationship
                is Some ==> build(roots).relationships.contains_key(
                (roots[i].ancestors@[j].key(), roots[i].key()),
            ),
        forall|j: int|
            0 <= j < roots[i].descendants@.len() && (#[trigger] roots[i].descendants@[
                j
            ]).relationship is Some ==> build(roots).relationships.contains_key(
                (roots[i].key(), roots[i].descendants@[j].key()),
            ),
{
    lemma_scan_child_links(empty_graph(), roots, None, false, i);
}

/// Deduplication: a component listed as a descendant of two different roots
/// is stored once under its key, and each of the two parent links gives its
/// own edge to that key.
pub proof fn law_shared_descendant(roots: Seq<Node>, i0: int, j0: int, i1: int, j1: int)
    requires
        0 <= i0 < roots.len(),
        0 <= i1 < roots.len(),
        0 <= j0 < roots[i0].descendants@.len(),
        0 <= j1 < roots[i1].descendants@.len(),
        roots[i0].descendants@[j0].key() == roots[i1].descendants@[j1].key(),
        roots[i0].descendants@[j0].relationship is Some,
        roots[i1].descendants@[j1].relationship is Some,
        roots[i0].key() != roots[i1].key(),
    ensures
        build(roots).nodes.contains_key(roots[i0].descendants@[j0].key()),
        build(roots).relationships.contains_key(
            (roots[i0].key(), roots[i0].descendants@[j0].key()),
        ),
        build(roots).relationships.contains_key(
            (roots[i1].key(), roots[i0].descendants@[j0].key()),
        ),
        (roots[i0].key(), roots[i0].descendants@[j0].key()) != (
            roots[i1].key(),
            roots[i0].descendants@[j0].key(),
        ),
{
    law_edge_direction(roots, i0);
    law_edge_direction(roots, i1);
    lemma_scan_child_nodes(empty_graph(), roots, None, false, i0, j0);
}

/// Every descendant of a listed node is stored in the graph.
pub proof fn lemma_scan_child_nodes(
    g: FlatGraph,
    ns: Seq<Node>,
    parent: Option<KeyView>,
    reverse: bool,
    i: int,
    j: int,
)
    requires
        0 <= i < ns.len(),
        0 <= j < ns[i].descendants@.len(),
    ensures
        scan(g, ns, parent, reverse).nodes.contains_key(ns[i].descendants@[j].key()),
    decreases ns,
{
    let n = ns.last();
    let g0 = scan(g, ns.drop_last(), parent, reverse);
    let g1 = visit(g0, n, parent, reverse);
    let g2 = scan(g1, n.ancestors@, Some(n.key()), true);
    lemma_scan_grows(g1, n.ancestors@, Some(n.key()), true);
    lemma_scan_grows(g2, n.descendants@, Some(n.key()), false);
    if i < ns.len() - 1 {
        lemma_scan_child_nodes(g, ns.drop_last(), parent, reverse, i, j);
        assert(ns.drop_last()[i] == ns[i]);
    } else {
        lemma_scan_node(g2, n.descendants@, Some(n.key()), false, j);
    }
}

/// Every listed node is stored in the graph.
pub proof fn lemma_scan_node(g: FlatGraph, ns: Seq<Node>, parent: Option<KeyView>, reverse: bool, i: int)
    requires
        0 <= i < ns.len(),
    ensures
        scan(g, ns, parent, reverse).nodes.contains_key(ns[i].key()),
    decreases ns,
{
    let n = ns.last();
    let g0 = scan(g, ns.drop_last(), parent, reverse);
    let g1 = visit(g0, n, parent, reverse);
    let g2 = scan(g1, n.ancestors@, Some(n.key()), true);
    lemma_scan_grows(g1, n.ancestors@, Some(n.key()), true);
    lemma_scan_grows(g2, n.descendants@, Some(n.key()), false);
    if i < ns.len() - 1 {
        lemma_scan_node(g, ns.drop_last(), parent, reverse, i);
        assert(ns.drop_last()[i] == ns[i]);
    }
}

/// A built graph stores at most one component per key.
pub proof fn law_one_component_per_key(g: Graph, i: int, j: int)
    requires
        g.wf(),
        0 <= i < g.nodes@.len(),
        0 <= j < g.nodes@.len(),
        g.nodes@[i].key() == g.nodes@[j].key(),
    ensures
        i == j,
{
    assert(component_key()(g.nodes@[i]) == component_key()(g.nodes@[j]));
}

/// No roots give a graph with no SBOM, no node and no edge.
pub proof fn law_empty_input()
    ensures
        build(Seq::empty()).sboms.is_empty(),
        build(Seq::empty()).nodes.is_empty(),
        build(Seq::empty()).relationships.is_empty(),
{
    assert(build(Seq::empty()) == empty_graph());
}

/// How many entries of `es` are under key `k`.
pub open spec fn count_key(es: Seq<(Seq<char>, Seq<char>)>, k: Seq<char>) -> nat
    decreases es.len(),
{
    if es.len() == 0 {
        0
    } else {
        count_key(es.drop_last(), k) + if es.last().0 == k {
            1nat
        } else {
            0nat
        }
    }
}

proof fn lemma_count_concat(a: Seq<(Seq<char>, Seq<char>)>, b: Seq<(Seq<char>, Seq<char>)>, k: Seq<char>)
    ensures
        count_key(a + b, k) == count_key(a, k) + count_key(b, k),
    decreases b.len(),
{
    if b.len() > 0 {
        assert((a + b).drop_last() =~= a + b.drop_last());
        lemma_count_concat(a, b.drop_last(), k);
    } else {
        assert(a + b =~= a);
    }
}

proof fn lemma_count_uniform(es: Seq<(Seq<char>, Seq<char>)>, key: Seq<char>, k: Seq<char>)
    requires
        forall|i: int| 0 <= i < es.len() ==> (#[trigger] es[i]).0 == key,
    ensures
        count_key(es, k) == if key == k {
            es.len()
        } else {
            0
        },
    decreases es.len(),
{
    if es.len() > 0 {
        lemma_count_uniform(es.drop_last(), key, k);
    }
}

proof fn lemma_count_absent(es: Seq<(Seq<char>, Seq<char>)>, k: Seq<char>)
    requires
        forall|i: int| 0 <= i < es.len() ==> (#[trigger] es[i]).0 != k,
    ensures
        count_key(es, k) == 0,
    decreases es.len(),
{
    if es.len() > 0 {
        lemma_count_absent(es.drop_last(), k);
    }
}

/// Multi-valued attributes fan out in GraphML: a component gets exactly one
/// `Purl` entry per PURL and one `Cpe` entry per CPE, in their order.
pub proof fn law_graphml_fan_out(c: Component)
    ensures
        count_key(component_data(c), NodeAttr::Purl.id()) == c.purl@.len(),
        count_key(component_data(c), NodeAttr::Cpe.id()) == c.cpe@.len(),
        forall|i: int|
            0 <= i < c.purl@.len() ==> component_data(c)[3 + c.cpe@.len() + i] == (
                NodeAttr::Purl.id(),
                (#[trigger] c.purl@[i])@,
            ),
{
    reveal_strlit("Name");
    reveal_strlit("SbomId");
    reveal_strlit("DocumentId");
    reveal_strlit("Purl");
    reveal_strlit("Cpe");
    let head = seq![
        (NodeAttr::Name.id(), c.name@),
        (NodeAttr::SbomId.id(), c.sbom_id@),
        (NodeAttr::DocumentId.id(), c.document_id@),
    ];
    let cpes = fan_out(NodeAttr::Cpe.id(), c.cpe@);
    let purls = fan_out(NodeAttr::Purl.id(), c.purl@);
    assert(NodeAttr::Name.id()[0] != NodeAttr::Purl.id()[0]);
    assert(NodeAttr::DocumentId.id()[0] != NodeAttr::Purl.id()[0]);
    assert(NodeAttr::Name.id()[0] != NodeAttr::Cpe.id()[0]);
    assert(NodeAttr::DocumentId.id()[0] != NodeAttr::Cpe.id()[0]);
    assert(NodeAttr::SbomId.id()[0] != NodeAttr::Cpe.id()[0]);
    assert(NodeAttr::SbomId.id()[0] != NodeAttr::Purl.id()[0]);
    assert(NodeAttr::Cpe.id()[0] != NodeAttr::Purl.id()[0]);
    lemma_count_concat(head + cpes, purls, NodeAttr::Purl.id());
    lemma_count_concat(head, cpes, NodeAttr::Purl.id());
    lemma_count_concat(head + cpes, purls, NodeAttr::Cpe.id());
    lemma_count_concat(head, cpes, NodeAttr::Cpe.id());
    lemma_count_uniform(cpes, NodeAttr::Cpe.id(), NodeAttr::Purl.id());
    lemma_count_uniform(purls, NodeAttr::Purl.id(), NodeAttr::Purl.id());
    lemma_count_uniform(cpes, NodeAttr::Cpe.id(), NodeAttr::Cpe.id());
    lemma_count_uniform(purls, NodeAttr::Purl.id(), NodeAttr::Cpe.id());
    lemma_count_absent(head, NodeAttr::Purl.id());
    lemma_count_absent(head, NodeAttr::Cpe.id());
}

/// Multi-valued attributes fan out in GEXF: a node gets exactly one `Purl`
/// value per PURL and one `Cpe` value per CPE, in their order.
pub proof fn law_gexf_fan_out(c: Component)
    ensures
        count_key(component_values(c), Attr::Purl.id()) == c.purl@.len(),
        count_key(component_values(c), Attr::Cpe.id()) == c.cpe@.len(),
        forall|i: int|
            0 <= i < c.purl@.len() ==> component_values(c)[2 + c.cpe@.len() + i] == (
                Attr::Purl.id(),
                (#[trigger] c.purl@[i])@,
            ),
{
    reveal_strlit("SbomId");
    reveal_strlit("DocumentId");
    reveal_strlit("Purl");
    reveal_strlit("Cpe");
    let head = seq![(Attr::SbomId.id(), c.sbom_id@), (Attr::DocumentId.id(), c.document_id@)];
    let cpes = repeated(Attr::Cpe.id(), c.cpe@);
    let purls = repeated(Attr::Purl.id(), c.purl@);
    assert(Attr::DocumentId.id()[0] != Attr::Purl.id()[0]);
    assert(Attr::DocumentId.id()[0] != Attr::Cpe.id()[0]);
    assert(Attr::SbomId.id()[0] != Attr::Cpe.id()[0]);
    assert(Attr::SbomId.id()[0] != Attr::Purl.id()[0]);
    assert(Attr::Cpe.id()[0] != Attr::Purl.id()[0]);
    lemma_count_concat(head + cpes, purls, Attr::Purl.id());
    lemma_count_concat(head, cpes, Attr::Purl.id());
    lemma_count_concat(head + cpes, purls, Attr::Cpe.id());
    lemma_count_concat(head, cpes, Attr::Cpe.id());
    lemma_count_uniform(cpes, Attr::Cpe.id(), Attr::Purl.id());
    lemma_count_uniform(purls, Attr::Purl.id(), Attr::Purl.id());
    lemma_count_uniform(cpes, Attr::Cpe.id(), Attr::Cpe.id());
    lemma_count_uniform(purls, Attr::Purl.id(), Attr::Cpe.id());
    lemma_count_absent(head, Attr::Purl.id());
    lemma_count_absent(head, Attr::Cpe.id());
}

/// A graph with no SBOM, node or edge renders as a bare document in every
/// format: DOT with no statements, GraphML with an empty top-level graph,
/// GEXF with neither `nodes` nor `edges`.
pub proof fn law_empty_documents(g: Graph, modified: Seq<char>)
    requires
        g.sboms@.len() == 0,
        g.nodes@.len() == 0,
        g.relationships@.len() == 0,
    ensures
        graphviz_doc(g) == graphviz_header() + "\n}\n\n"@,
        graphml_doc(g) == "<graphml xmlns=\"http://graphml.graphdrawing.org/xmlns\">"@
            + graphml_keys() + "<graph id=\"ID\" edgedefault=\"directed\"/>"@ + "</graphml>"@,
        gexf_doc(g, modified) == "<gexf version=\"1.3\" xmlns=\"http://gexf.net/1.3\"><meta"@
            + xml_attr("lastmodifieddate"@, modified)
            + "><creator>treeify</creator></meta><graph mode=\"static\" defaultedgetype=\"directed\">"@
            + gexf_attributes() + "</graph></gexf>"@,
{
    reveal_strlit("<graph id=\"ID\" edgedefault=\"directed\"");
    reveal_strlit("/>");
    reveal_strlit("<graph id=\"ID\" edgedefault=\"directed\"/>");
    assert(graphviz_doc(g) =~= graphviz_header() + "\n}\n\n"@);
    assert("<graph id=\"ID\" edgedefault=\"directed\""@ + "/>"@ =~= "<graph id=\"ID\" edgedefault=\"directed\"/>"@);
    assert(graphml_doc(g) =~= "<graphml xmlns=\"http://graphml.graphdrawing.org/xmlns\">"@
        + graphml_keys() + "<graph id=\"ID\" edgedefault=\"directed\"/>"@ + "</graphml>"@);
    assert(gexf_doc(g, modified) =~= "<gexf version=\"1.3\" xmlns=\"http://gexf.net/1.3\"><meta"@
        + xml_attr("lastmodifieddate"@, modified)
        + "><creator>treeify</creator></meta><graph mode=\"static\" defaultedgetype=\"directed\">"@
        + gexf_attributes() + "</graph></gexf>"@);
}

/// Every edge joins two stored nodes, the SBOM of every stored node is
/// recorded, and every recorded SBOM has a stored node.
pub open spec fn closed(g: FlatGraph) -> bool {
    &&& forall|e: (KeyView, KeyView)| #[trigger]
        g.relationships.contains_key(e) ==> g.nodes.contains_key(e.0) && g.nodes.contains_key(
            e.1,
        )
    &&& forall|k: KeyView| #[trigger] g.nodes.contains_key(k) ==> g.sboms.contains_key(k.0)
    &&& forall|id: Seq<char>| #[trigger]
        g.sboms.contains_key(id) ==> exists|k: KeyView| g.nodes.contains_key(k) && k.0 == id
}

/// Walking below a stored parent keeps the graph closed.
pub proof fn lemma_scan_closed(g: FlatGraph, ns: Seq<Node>, parent: Option<KeyView>, reverse: bool)
    requires
        closed(g),
        parent matches Some(p) ==> g.nodes.contains_key(p),
    ensures
        closed(scan(g, ns, parent, reverse)),
    decreases ns,
{
    if ns.len() > 0 {
        let n = ns.last();
        let g0 = scan(g, ns.drop_last(), parent, reverse);
        let g1 = visit(g0, n, parent, reverse);
        let g2 = scan(g1, n.ancestors@, Some(n.key()), true);
        lemma_scan_closed(g, ns.drop_last(), parent, reverse);
        lemma_scan_grows(g, ns.drop_last(), parent, reverse);
        assert forall|id: Seq<char>| #[trigger] g1.sboms.contains_key(id) implies exists|k: KeyView|
            g1.nodes.contains_key(k) && k.0 == id by {
            if id == n.sbom_id@ {
                assert(g1.nodes.contains_key(n.key()));
            } else {
                let k = choose|k: KeyView| g0.nodes.contains_key(k) && k.0 == id;
                assert(g1.nodes.contains_key(k));
            }
        }
        assert(closed(g1));
        lemma_scan_closed(g1, n.ancestors@, Some(n.key()), true);
        lemma_scan_grows(g1, n.ancestors@, Some(n.key()), true);
        lemma_scan_closed(g2, n.descendants@, Some(n.key()), false);
    }
}

/// A built graph is closed: every edge joins two of its nodes, every node's
/// SBOM has its metadata, and every SBOM has at least one node.
pub proof fn law_build_closed(roots: Seq<Node>)
    ensures
        closed(build(roots)),
{
    lemma_scan_closed(empty_graph(), roots, None, false);
}

} // verus!
