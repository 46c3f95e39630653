use vstd::prelude::*;

use crate::graph::{Component, Graph, Relationship, Sbom};
use crate::model::canonical;
use crate::text::{escape_xml, xml_escape};
use crate::xml::{element, push_attr, push_element, xml_attr};

verus! {

/// The attributes that a GraphML node carries.
pub enum NodeAttr {
    Name,
    SbomId,
    DocumentId,
    Purl,
    Cpe,
}

/// The attributes that a GraphML edge carries.
pub enum EdgeAttr {
    Relationship,
}

impl NodeAttr {
    /// The key id under which the attribute is declared.
    pub open spec fn id(&self) -> Seq<char> {
        match self {
            NodeAttr::Name => "Name"@,
            NodeAttr::SbomId => "SbomId"@,
            NodeAttr::DocumentId => "DocumentId"@,
            NodeAttr::Purl => "Purl"@,
            NodeAttr::Cpe => "Cpe"@,
        }
    }

    pub fn as_str(&self) -> (r: &'static str)
        ensures
            r@ == self.id(),
    {
        match self {
            NodeAttr::Name => "Name",
            NodeAttr::SbomId => "SbomId",
            NodeAttr::DocumentId => "DocumentId",
            NodeAttr::Purl => "Purl",
            NodeAttr::Cpe => "Cpe",
        }
    }
}

impl EdgeAttr {
    pub open spec fn id(&self) -> Seq<char> {
        match self {
            EdgeAttr::Relationship => "Relationship"@,
        }
    }

    pub fn as_str(&self) -> (r: &'static str)
        ensures
            r@ == self.id(),
    {
        match self {
            EdgeAttr::Relationship => "Relationship",
        }
    }
}

/// One `data` entry: a key id and a value.
pub struct Attribute {
    pub key: String,
    pub value: String,
}

/// The `data` entries of a node or an edge, in order; one key may repeat.
pub struct Data(pub Vec<Attribute>);

/// Abstract value of a list of entries.
pub open spec fn entries_of(v: Seq<Attribute>) -> Seq<(Seq<char>, Seq<char>)> {
    v.map_values(|a: Attribute| (a.key@, a.value@))
}

/// One entry per value, all under `key`.
pub open spec fn fan_out(key: Seq<char>, values: Seq<String>) -> Seq<(Seq<char>, Seq<char>)> {
    values.map_values(|v: String| (key, v@))
}

impl Data {
    pub open spec fn entries(&self) -> Seq<(Seq<char>, Seq<char>)> {
        entries_of(self.0@)
    }

    pub fn new() -> (r: Self)
        ensures
            r.entries() == Seq::<(Seq<char>, Seq<char>)>::empty(),
    {
        let r = Data(Vec::new());
        assert(r.entries() =~= Seq::<(Seq<char>, Seq<char>)>::empty());
        r
    }

    /// Appends one entry.
    pub fn add(self, key: &str, value: &str) -> (r: Self)
        ensures
            r.entries() == self.entries().push((key@, value@)),
    {
        let mut d = self;
        d.0.push(Attribute { key: key.to_string(), value: value.to_string() });
        assert(d.entries() =~= self.entries().push((key@, value@)));
        d
    }

    /// Appends one entry per value, all under `key`, keeping the order of
    /// the values.
    pub fn extend(self, key: &str, values: &Vec<String>) -> (r: Self)
        ensures
            r.entries() == self.entries() + fan_out(key@, values@),
    {
        let mut d = self;
        let mut i: usize = 0;
        while i < values.len()
            invariant
                i <= values.len(),
                d.entries() == self.entries() + fan_out(key@, values@.take(i as int)),
            decreases values.len() - i,
        {
            let ghost prev = d.entries();
            d.0.push(Attribute { key: key.to_string(), value: values[i].clone() });
            assert(d.entries() =~= prev.push((key@, values@[i as int]@)));
            assert(fan_out(key@, values@.take(i + 1)) =~= fan_out(key@, values@.take(i as int)).push(
                (key@, values@[i as int]@),
            ));
            assert(d.entries() =~= self.entries() + fan_out(key@, values@.take(i + 1)));
            i = i + 1;
        }
        assert(values@.take(values.len() as int) =~= values@);
        d
    }

    pub fn into_vec(self) -> (r: Vec<Attribute>)
        ensures
            entries_of(r@) == self.entries(),
    {
        self.0
    }
}

/// `<data key="..">value</data>`.
pub open spec fn data_xml(e: (Seq<char>, Seq<char>)) -> Seq<char> {
    element("<data"@ + xml_attr("key"@, e.0), "data"@, xml_escape(e.1))
}

pub open spec fn datas_xml(es: Seq<(Seq<char>, Seq<char>)>) -> Seq<char>
    decreases es.len(),
{
    if es.len() == 0 {
        Seq::empty()
    } else {
        datas_xml(es.drop_last()) + data_xml(es.last())
    }
}

/// The entries of a component: name, SBOM id, document id, then one entry
/// per CPE and one per PURL.
pub open spec fn component_data(c: Component) -> Seq<(Seq<char>, Seq<char>)> {
    seq![
        (NodeAttr::Name.id(), c.name@),
        (NodeAttr::SbomId.id(), c.sbom_id@),
        (NodeAttr::DocumentId.id(), c.document_id@),
    ] + fan_out(NodeAttr::Cpe.id(), c.cpe@) + fan_out(NodeAttr::Purl.id(), c.purl@)
}

pub open spec fn component_xml(c: Component) -> Seq<char> {
    element(
        "<node"@ + xml_attr("id"@, canonical(c.key())),
        "node"@,
        datas_xml(component_data(c)),
    )
}

/// The nodes of the components of `ns` that belong to SBOM `id`.
pub open spec fn components_xml(ns: Seq<Component>, id: Seq<char>) -> Seq<char>
    decreases ns.len(),
{
    if ns.len() == 0 {
        Seq::empty()
    } else {
        components_xml(ns.drop_last(), id) + if ns.last().sbom_id@ == id {
            component_xml(ns.last())
        } else {
            Seq::empty()
        }
    }
}

/// The node of one SBOM: a nested graph of its components, then its
/// document id.
pub open spec fn sbom_xml(s: Sbom, ns: Seq<Component>) -> Seq<char> {
    element(
        "<node"@ + xml_attr("id"@, s.id@),
        "node"@,
        element(
            "<graph"@ + xml_attr("id"@, s.id@) + xml_attr("edgedefault"@, "directed"@),
            "graph"@,
            components_xml(ns, s.id@),
        ) + datas_xml(seq![(NodeAttr::DocumentId.id(), s.document_id@)]),
    )
}

pub open spec fn sboms_xml(ss: Seq<Sbom>, ns: Seq<Component>) -> Seq<char>
    decreases ss.len(),
{
    if ss.len() == 0 {
        Seq::empty()
    } else {
        sboms_xml(ss.drop_last(), ns) + sbom_xml(ss.last(), ns)
    }
}

pub open spec fn edge_xml(r: Relationship) -> Seq<char> {
    element(
        "<edge"@ + xml_attr("source"@, canonical(r.from@)) + xml_attr("target"@, canonical(r.to@)),
        "edge"@,
        datas_xml(seq![(EdgeAttr::Relationship.id(), r.label@)]),
    )
}

pub open spec fn edges_xml(rs: Seq<Relationship>) -> Seq<char>
    decreases rs.len(),
{
    if rs.len() == 0 {
        Seq::empty()
    } else {
        edges_xml(rs.drop_last()) + edge_xml(rs.last())
    }
}

/// The declarations of the six attribute keys.
pub open spec fn graphml_keys() -> Seq<char> {
    "<key id=\"Name\" for=\"node\" attr.name=\"Name\" attr.type=\"string\"/><key id=\"SbomId\" for=\"node\" attr.name=\"SBOM ID\" attr.type=\"string\"/><key id=\"DocumentId\" for=\"node\" attr.name=\"Document ID\" attr.type=\"string\"/><key id=\"Cpe\" for=\"node\" attr.name=\"CPE\" attr.type=\"string\"/><key id=\"Purl\" for=\"node\" attr.name=\"PURL\" attr.type=\"string\"/><key id=\"Relationship\" for=\"edge\" attr.name=\"Relationship\" attr.type=\"string\"/>"@
}

/// The whole GraphML document of a graph.
pub open spec fn graphml_doc(g: Graph) -> Seq<char> {
    "<graphml xmlns=\"http://graphml.graphdrawing.org/xmlns\">"@ + graphml_keys() + element(
        "<graph id=\"ID\" edgedefault=\"directed\""@,
        "graph"@,
        sboms_xml(g.sboms@, g.nodes@) + edges_xml(g.relationships@),
    ) + "</graphml>"@
}

fn render_datas(es: &Vec<Attribute>) -> (r: String)
    ensures
        r@ == datas_xml(entries_of(es@)),
{
    let mut r = String::new();
    let mut i: usize = 0;
    while i < es.len()
        invariant
            i <= es.len(),
            r@ == datas_xml(entries_of(es@.take(i as int))),
        decreases es.len() - i,
    {
        let mut open = String::new();
        open.append("<data");
        push_attr(&mut open, "key", es[i].key.as_str());
        let v = escape_xml(es[i].value.as_str());
        push_element(&mut r, open.as_str(), "data", v.as_str());
        proof {
            let t = entries_of(es@.take(i + 1));
            assert(t.drop_last() =~= entries_of(es@.take(i as int)));
            assert(t.last() == (es@[i as int].key@, es@[i as int].value@));
            assert(r@ =~= datas_xml(t));
        }
        i = i + 1;
    }
    assert(es@.take(es.len() as int) =~= es@);
    r
}

fn render_component(c: &Component) -> (r: String)
    ensures
        r@ == component_xml(*c),
{
    let data = Data::new().add(NodeAttr::Name.as_str(), c.name.as_str()).add(
        NodeAttr::SbomId.as_str(),
        c.sbom_id.as_str(),
    ).add(NodeAttr::DocumentId.as_str(), c.document_id.as_str()).extend(
        NodeAttr::Cpe.as_str(),
        &c.cpe,
    ).extend(NodeAttr::Purl.as_str(), &c.purl).into_vec();
    assert(entries_of(data@) =~= component_data(*c));
    let body = render_datas(&data);
    let key = crate::model::Key { sbom: c.sbom_id.clone(), node: c.node_id.clone() };
    let id = key.canonical_string();
    let mut open = String::new();
    open.append("<node");
    push_attr(&mut open, "id", id.as_str());
    let mut r = String::new();
    push_element(&mut r, open.as_str(), "node", body.as_str());
    assert(r@ =~= component_xml(*c));
    r
}

fn render_sbom(s: &Sbom, ns: &Vec<Component>) -> (r: String)
    ensures
        r@ == sbom_xml(*s, ns@),
{
    let mut children = String::new();
    let mut i: usize = 0;
    while i < ns.len()
        invariant
            i <= ns.len(),
            children@ == components_xml(ns@.take(i as int), s.id@),
        decreases ns.len() - i,
    {
        if ns[i].sbom_id == s.id {
            let node = render_component(&ns[i]);
            children.append(node.as_str());
        }
        proof {
            let t = ns@.take(i + 1);
            assert(t.drop_last() =~= ns@.take(i as int));
            assert(t.last() == ns@[i as int]);
            assert(children@ =~= components_xml(t, s.id@));
        }
        i = i + 1;
    }
    assert(ns@.take(ns.len() as int) =~= ns@);
    let mut graph_open = String::new();
    graph_open.append("<graph");
    push_attr(&mut graph_open, "id", s.id.as_str());
    push_attr(&mut graph_open, "edgedefault", "directed");
    let mut body = String::new();
    push_element(&mut body, graph_open.as_str(), "graph", children.as_str());
    let data = Data::new().add(NodeAttr::DocumentId.as_str(), s.document_id.as_str()).into_vec();
    let d = render_datas(&data);
    body.append(d.as_str());
    let mut open = String::new();
    open.append("<node");
    push_attr(&mut open, "id", s.id.as_str());
    let mut r = String::new();
    push_element(&mut r, open.as_str(), "node", body.as_str());
    proof {
        assert(entries_of(data@) =~= seq![(NodeAttr::DocumentId.id(), s.document_id@)]);
        assert(r@ =~= sbom_xml(*s, ns@));
    }
    r
}

fn render_edge(e: &Relationship) -> (r: String)
    ensures
        r@ == edge_xml(*e),
{
    let data = Data::new().add(EdgeAttr::Relationship.as_str(), e.label.as_str()).into_vec();
    let body = render_datas(&data);
    let from = e.from.canonical_string();
    let to = e.to.canonical_string();
    let mut open = String::new();
    open.append("<edge");
    push_attr(&mut open, "source", from.as_str());
    push_attr(&mut open, "target", to.as_str());
    let mut r = String::new();
    push_element(&mut r, open.as_str(), "edge", body.as_str());
    proof {
        assert(entries_of(data@) =~= seq![(EdgeAttr::Relationship.id(), e.label@)]);
        assert(r@ =~= edge_xml(*e));
    }
    r
}

impl Graph {
    /// The graph as a GraphML document: the six key declarations, one node
    /// per SBOM holding a nested graph of its components, then the edges.
    pub fn render_graphml(&self) -> (r: String)
        ensures
            r@ == graphml_doc(*self),
    {
        let mut body = String::new();
        let mut i: usize = 0;
        while i < self.sboms.len()
            invariant
                i <= self.sboms.len(),
                body@ == sboms_xml(self.sboms@.take(i as int), self.nodes@),
            decreases self.sboms.len() - i,
        {
            let node = render_sbom(&self.sboms[i], &self.nodes);
            body.append(node.as_str());
            proof {
                let t = self.sboms@.take(i + 1);
                assert(t.drop_last() =~= self.sboms@.take(i as int));
                assert(body@ =~= sboms_xml(t, self.nodes@));
            }
            i = i + 1;
        }
        assert(self.sboms@.take(self.sboms.len() as int) =~= self.sboms@);
        let ghost mid = body@;
        let mut j: usize = 0;
        while j < self.relationships.len()
            invariant
                j <= self.relationships.len(),
                body@ == mid + edges_xml(self.relationships@.take(j as int)),
            decreases self.relationships.len() - j,
        {
            let edge = render_edge(&self.relationships[j]);
            body.append(edge.as_str());
            proof {
                let t = self.relationships@.take(j + 1);
                assert(t.drop_last() =~= self.relationships@.take(j as int));
                assert(body@ =~= mid + edges_xml(t));
            }
            j = j + 1;
        }
        assert(self.relationships@.take(self.relationships.len() as int) =~= self.relationships@);
        let mut r = String::new();
        r.append("<graphml xmlns=\"http://graphml.graphdrawing.org/xmlns\">");
        r.append(
            "<key id=\"Name\" for=\"node\" attr.name=\"Name\" attr.type=\"string\"/><key id=\"SbomId\" for=\"node\" attr.name=\"SBOM ID\" attr.type=\"string\"/><key id=\"DocumentId\" for=\"node\" attr.name=\"Document ID\" attr.type=\"string\"/><key id=\"Cpe\" for=\"node\" attr.name=\"CPE\" attr.type=\"string\"/><key id=\"Purl\" for=\"node\" attr.name=\"PURL\" attr.type=\"string\"/><key id=\"Relationship\" for=\"edge\" attr.name=\"Relationship\" attr.type=\"string\"/>",
        );
        push_element(&mut r, "<graph id=\"ID\" edgedefault=\"directed\"", "graph", body.as_str());
        r.append("</graphml>");
        assert(r@ =~= graphml_doc(*self));
        r
    }
}

} // verus!
