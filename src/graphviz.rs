use vstd::prelude::*;

use crate::graph::{Component, Graph, Relationship, Sbom};
use crate::model::{Key, KeyView};
use crate::text::{dot_escape, encode};

verus! {

/// The quoted DOT identifier of a key: both parts escaped, joined by `--`.
pub open spec fn encoded(k: KeyView) -> Seq<char> {
    dot_escape(k.0) + "--"@ + dot_escape(k.1)
}

impl Key {
    /// The key as a DOT identifier, each part escaped on its own.
    pub fn encode(&self) -> (r: String)
        ensures
            r@ == encoded(self@),
    {
        let mut r = encode(self.sbom.as_str());
        r.append("--");
        let n = encode(self.node.as_str());
        r.append(n.as_str());
        r
    }
}

/// A set of DOT attributes, kept in the order they were first added; either
/// a bracketed list for a node or edge, or the statements of a subgraph.
pub struct Attributes {
    pub data: Vec<(String, String)>,
    pub subgraph: bool,
}

/// The text of one attribute.
pub open spec fn attr_text(e: (Seq<char>, Seq<char>), subgraph: bool) -> Seq<char> {
    "\""@ + dot_escape(e.0) + "\" = \""@ + dot_escape(e.1) + "\" "@ + if subgraph {
        ";\n"@
    } else {
        Seq::empty()
    }
}

/// The text of a list of attributes, one after the other.
pub open spec fn attrs_body(es: Seq<(Seq<char>, Seq<char>)>, subgraph: bool) -> Seq<char>
    decreases es.len(),
{
    if es.len() == 0 {
        Seq::empty()
    } else {
        attrs_body(es.drop_last(), subgraph) + attr_text(es.last(), subgraph)
    }
}

/// The text of an attribute block: bracketed unless it belongs to a subgraph.
pub open spec fn attrs_text(es: Seq<(Seq<char>, Seq<char>)>, subgraph: bool) -> Seq<char> {
    if subgraph {
        attrs_body(es, subgraph)
    } else {
        "["@ + attrs_body(es, subgraph) + "]"@
    }
}

impl Attributes {
    /// The attributes as pairs of character sequences, in order.
    pub open spec fn entries(&self) -> Seq<(Seq<char>, Seq<char>)> {
        Seq::new(self.data@.len(), |i: int| (self.data@[i].0@, self.data@[i].1@))
    }

    /// An empty list of node or edge attributes.
    pub fn new() -> (r: Self)
        ensures
            r.entries() == Seq::<(Seq<char>, Seq<char>)>::empty(),
            !r.subgraph,
    {
        let r = Attributes { data: Vec::new(), subgraph: false };
        assert(r.entries() =~= Seq::<(Seq<char>, Seq<char>)>::empty());
        r
    }

    /// An empty list of subgraph attributes.
    pub fn subgraph() -> (r: Self)
        ensures
            r.entries() == Seq::<(Seq<char>, Seq<char>)>::empty(),
            r.subgraph,
    {
        let r = Attributes { data: Vec::new(), subgraph: true };
        assert(r.entries() =~= Seq::<(Seq<char>, Seq<char>)>::empty());
        r
    }

    /// Sets `key` to `value`: replaces the value of the first entry with
    /// that key, or appends a new entry.
    pub fn add(self, key: String, value: String) -> (r: Self)
        ensures
            r.subgraph == self.subgraph,
            (exists|j: int|
                0 <= j < self.entries().len() && self.entries()[j].0 == key@ && (forall|l: int|
                    0 <= l < j ==> self.entries()[l].0 != key@) && r.entries()
                    == self.entries().update(j, (key@, value@))) || ((forall|l: int|
                0 <= l < self.entries().len() ==> self.entries()[l].0 != key@) && r.entries()
                == self.entries().push((key@, value@))),
    {
        let mut a = self;
        let ghost old_entries = a.entries();
        let mut j: usize = 0;
        while j < a.data.len()
            invariant
                a.entries() == old_entries,
                a.subgraph == self.subgraph,
                old_entries == self.entries(),
                j <= a.data.len(),
                forall|l: int| 0 <= l < j ==> old_entries[l].0 != key@,
            decreases a.data.len() - j,
        {
            if a.data[j].0 == key {
                a.data.set(j, (key, value));
                assert(a.entries() =~= old_entries.update(j as int, (key@, value@)));
                return a;
            }
            j = j + 1;
        }
        a.data.push((key, value));
        assert(a.entries() =~= old_entries.push((key@, value@)));
        a
    }

    /// The DOT text of this attribute block.
    pub fn to_text(&self) -> (r: String)
        ensures
            r@ == attrs_text(self.entries(), self.subgraph),
    {
        let mut r = String::new();
        if !self.subgraph {
            r.append("[");
        }
        let ghost start = r@;
        let mut i: usize = 0;
        while i < self.data.len()
            invariant
                i <= self.data.len(),
                r@ == start + attrs_body(self.entries().take(i as int), self.subgraph),
            decreases self.data.len() - i,
        {
            r.append("\"");
            let k = encode(self.data[i].0.as_str());
            r.append(k.as_str());
            r.append("\" = \"");
            let v = encode(self.data[i].1.as_str());
            r.append(v.as_str());
            r.append("\" ");
            if self.subgraph {
                r.append(";\n");
            }
            proof {
                let t = self.entries().take(i + 1);
                assert(t.drop_last() =~= self.entries().take(i as int));
                assert(t.last() == self.entries()[i as int]);
                assert(r@ =~= start + attrs_body(t, self.subgraph));
            }
            i = i + 1;
        }
        assert(self.entries().take(self.data.len() as int) =~= self.entries());
        if !self.subgraph {
            r.append("]");
        }
        proof {
            if !self.subgraph {
                assert(r@ =~= attrs_text(self.entries(), self.subgraph));
            } else {
                assert(start =~= Seq::<char>::empty());
                assert(r@ =~= attrs_text(self.entries(), self.subgraph));
            }
        }
        r
    }
}

/// The opening of the document, with its layout hints.
pub open spec fn graphviz_header() -> Seq<char> {
    "\ndigraph {\n  concentrate=true;\n  rankdir=\"LR\";\n  overlap=false;\n  newrank=true;\n  compound=true;\n  splines=polyline;\n\n\n"@
}

/// The label of an SBOM's cluster: `"{document_id} / {published} / {id}"`.
pub open spec fn cluster_label(s: Sbom) -> Seq<char> {
    s.document_id@ + " / "@ + s.published@ + " / "@ + s.id@
}

pub open spec fn cluster_attrs(s: Sbom) -> Seq<(Seq<char>, Seq<char>)> {
    seq![("cluster"@, "true"@), ("label"@, cluster_label(s))]
}

pub open spec fn node_attrs(c: Component) -> Seq<(Seq<char>, Seq<char>)> {
    seq![("label"@, c.node_id@), ("shape"@, "box"@)]
}

pub open spec fn edge_attrs(r: Relationship) -> Seq<(Seq<char>, Seq<char>)> {
    seq![("group"@, r.from.sbom@ + "-"@ + r.to.sbom@), ("label"@, r.label@)]
}

/// The statement of one component: its key as identifier, its node id as
/// label, drawn as a box.
pub open spec fn node_line(c: Component) -> Seq<char> {
    "  \""@ + encoded(c.key()) + "\" "@ + attrs_text(node_attrs(c), false) + "\n"@
}

/// The statements of the components of `ns` that belong to SBOM `id`.
pub open spec fn node_lines(ns: Seq<Component>, id: Seq<char>) -> Seq<char>
    decreases ns.len(),
{
    if ns.len() == 0 {
        Seq::empty()
    } else {
        node_lines(ns.drop_last(), id) + if ns.last().sbom_id@ == id {
            node_line(ns.last())
        } else {
            Seq::empty()
        }
    }
}

/// The cluster subgraph of one SBOM with its components.
pub open spec fn cluster(s: Sbom, ns: Seq<Component>) -> Seq<char> {
    "\nsubgraph \""@ + dot_escape(s.id@) + "\" {\n"@ + attrs_text(cluster_attrs(s), true)
        + "\n\n"@ + node_lines(ns, s.id@) + "\n}\n\n"@
}

/// The clusters of the SBOMs in `ss`, in order.
pub open spec fn clusters(ss: Seq<Sbom>, ns: Seq<Component>) -> Seq<char>
    decreases ss.len(),
{
    if ss.len() == 0 {
        Seq::empty()
    } else {
        clusters(ss.drop_last(), ns) + cluster(ss.last(), ns)
    }
}

/// The statement of one edge, grouped by the SBOMs of its two ends.
pub open spec fn edge_line(r: Relationship) -> Seq<char> {
    "  \""@ + encoded(r.from@) + "\" -> \""@ + encoded(r.to@) + "\" "@ + attrs_text(
        edge_attrs(r),
        false,
    ) + "\n"@
}

/// The statements of the edges in `rs`, in order.
pub open spec fn edge_lines(rs: Seq<Relationship>) -> Seq<char>
    decreases rs.len(),
{
    if rs.len() == 0 {
        Seq::empty()
    } else {
        edge_lines(rs.drop_last()) + edge_line(rs.last())
    }
}

/// The whole DOT document of a graph.
pub open spec fn graphviz_doc(g: Graph) -> Seq<char> {
    graphviz_header() + clusters(g.sboms@, g.nodes@) + edge_lines(g.relationships@) + "\n}\n\n"@
}

/// Attributes made of two entries under distinct keys.
fn pair(subgraph: bool, k1: &str, v1: String, k2: &str, v2: String) -> (r: Attributes)
    requires
        k1@ != k2@,
    ensures
        r.entries() == seq![(k1@, v1@), (k2@, v2@)],
        r.subgraph == subgraph,
{
    let a = if subgraph {
        Attributes::subgraph()
    } else {
        Attributes::new()
    };
    let a = a.add(k1.to_string(), v1);
    assert(a.entries() =~= seq![(k1@, v1@)]);
    let a = a.add(k2.to_string(), v2);
    assert(a.entries() =~= seq![(k1@, v1@), (k2@, v2@)]);
    a
}

fn render_node(c: &Component) -> (r: String)
    ensures
        r@ == node_line(*c),
{
    proof {
        reveal_strlit("label");
        reveal_strlit("shape");
        assert("label"@[0] != "shape"@[0]);
    }
    let attrs = pair(false, "label", c.node_id.clone(), "shape", "box".to_string());
    let mut r = String::new();
    r.append("  \"");
    let k = encode(c.sbom_id.as_str());
    r.append(k.as_str());
    r.append("--");
    let n = encode(c.node_id.as_str());
    r.append(n.as_str());
    r.append("\" ");
    let t = attrs.to_text();
    r.append(t.as_str());
    r.append("\n");
    assert(r@ =~= node_line(*c));
    r
}

fn render_cluster(s: &Sbom, ns: &Vec<Component>) -> (r: String)
    ensures
        r@ == cluster(*s, ns@),
{
    proof {
        reveal_strlit("cluster");
        reveal_strlit("label");
    }
    let mut label = s.document_id.clone();
    label.append(" / ");
    label.append(s.published.as_str());
    label.append(" / ");
    label.append(s.id.as_str());
    let attrs = pair(true, "cluster", "true".to_string(), "label", label);
    let mut r = String::new();
    r.append("\nsubgraph \"");
    let id = encode(s.id.as_str());
    r.append(id.as_str());
    r.append("\" {\n");
    let t = attrs.to_text();
    r.append(t.as_str());
    r.append("\n\n");
    let ghost start = r@;
    let mut i: usize = 0;
    while i < ns.len()
        invariant
            i <= ns.len(),
            r@ == start + node_lines(ns@.take(i as int), s.id@),
        decreases ns.len() - i,
    {
        if ns[i].sbom_id == s.id {
            let line = render_node(&ns[i]);
            r.append(line.as_str());
        }
        proof {
            let t = ns@.take(i + 1);
            assert(t.drop_last() =~= ns@.take(i as int));
            assert(t.last() == ns@[i as int]);
            assert(r@ =~= start + node_lines(t, s.id@));
        }
        i = i + 1;
    }
    assert(ns@.take(ns.len() as int) =~= ns@);
    r.append("\n}\n\n");
    assert(r@ =~= cluster(*s, ns@));
    r
}

fn render_edge(e: &Relationship) -> (r: String)
    ensures
        r@ == edge_line(*e),
{
    proof {
        reveal_strlit("group");
        reveal_strlit("label");
        assert("group"@[0] != "label"@[0]);
    }
    let mut group = e.from.sbom.clone();
    group.append("-");
    group.append(e.to.sbom.as_str());
    let attrs = pair(false, "group", group, "label", e.label.clone());
    let mut r = String::new();
    r.append("  \"");
    let from = e.from.encode();
    r.append(from.as_str());
    r.append("\" -> \"");
    let to = e.to.encode();
    r.append(to.as_str());
    r.append("\" ");
    let t = attrs.to_text();
    r.append(t.as_str());
    r.append("\n");
    assert(r@ =~= edge_line(*e));
    r
}

impl Graph {
    /// The graph as a DOT digraph: one cluster per SBOM holding its
    /// components, then one statement per edge.
    pub fn render_grapviz(&self) -> (r: String)
        ensures
            r@ == graphviz_doc(*self),
    {
        let mut r = String::new();
        r.append(
            "\ndigraph {\n  concentrate=true;\n  rankdir=\"LR\";\n  overlap=false;\n  newrank=true;\n  compound=true;\n  splines=polyline;\n\n\n",
        );
        let ghost start = r@;
        let mut i: usize = 0;
        while i < self.sboms.len()
            invariant
                i <= self.sboms.len(),
                r@ == start + clusters(self.sboms@.take(i as int), self.nodes@),
            decreases self.sboms.len() - i,
        {
            let c = render_cluster(&self.sboms[i], &self.nodes);
            r.append(c.as_str());
            proof {
                let t = self.sboms@.take(i + 1);
                assert(t.drop_last() =~= self.sboms@.take(i as int));
                assert(r@ =~= start + clusters(t, self.nodes@));
            }
            i = i + 1;
        }
        assert(self.sboms@.take(self.sboms.len() as int) =~= self.sboms@);
        let ghost mid = r@;
        let mut j: usize = 0;
        while j < self.relationships.len()
            invariant
                j <= self.relationships.len(),
                r@ == mid + edge_lines(self.relationships@.take(j as int)),
            decreases self.relationships.len() - j,
        {
            let e = render_edge(&self.relationships[j]);
            r.append(e.as_str());
            proof {
                let t = self.relationships@.take(j + 1);
                assert(t.drop_last() =~= self.relationships@.take(j as int));
                assert(r@ =~= mid + edge_lines(t));
            }
            j = j + 1;
        }
        assert(self.relationships@.take(self.relationships.len() as int) =~= self.relationships@);
        r.append("\n}\n\n");
        assert(r@ =~= graphviz_doc(*self));
        r
    }
}

} // verus!
