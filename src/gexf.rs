use vstd::prelude::*;

use crate::graph::{Component, Graph, Relationship};
use crate::model::canonical;
use crate::xml::{element, push_attr, push_element, xml_attr};

verus! {

/// The attributes that a GEXF node carries.
pub enum Attr {
    SbomId,
    DocumentId,
    Purl,
    Cpe,
}

impl Attr {
    /// The id under which the attribute is declared.
    pub open spec fn id(&self) -> Seq<char> {
        match self {
            Attr::SbomId => "SbomId"@,
            Attr::DocumentId => "DocumentId"@,
            Attr::Purl => "Purl"@,
            Attr::Cpe => "Cpe"@,
        }
    }

    pub fn as_str(&self) -> (r: &'static str)
        ensures
            r@ == self.id(),
    {
        match self {
            Attr::SbomId => "SbomId",
            Attr::DocumentId => "DocumentId",
            Attr::Purl => "Purl",
            Attr::Cpe => "Cpe",
        }
    }
}

/// One `attvalue`: the id of the attribute it is for, and its value.
pub struct Attribute {
    pub for_id: String,
    pub value: String,
}

/// The `attvalues` of a node, in order; one attribute may repeat.
pub struct Attributes {
    pub attribute: Vec<Attribute>,
}

/// Abstract value of a list of attribute values.
pub open spec fn values_of(v: Seq<Attribute>) -> Seq<(Seq<char>, Seq<char>)> {
    v.map_values(|a: Attribute| (a.for_id@, a.value@))
}

/// One attribute value per string, all for attribute `id`.
pub open spec fn repeated(id: Seq<char>, values: Seq<String>) -> Seq<(Seq<char>, Seq<char>)> {
    values.map_values(|v: String| (id, v@))
}

impl Attributes {
    pub open spec fn values(&self) -> Seq<(Seq<char>, Seq<char>)> {
        values_of(self.attribute@)
    }

    pub fn new() -> (r: Self)
        ensures
            r.values() == Seq::<(Seq<char>, Seq<char>)>::empty(),
    {
        let r = Attributes { attribute: Vec::new() };
        assert(r.values() =~= Seq::<(Seq<char>, Seq<char>)>::empty());
        r
    }

    /// Appends one value.
    pub fn add(self, for_id: &str, value: &str) -> (r: Self)
        ensures
            r.values() == self.values().push((for_id@, value@)),
    {
        let mut a = self;
        a.attribute.push(Attribute { for_id: for_id.to_string(), value: value.to_string() });
        assert(a.values() =~= self.values().push((for_id@, value@)));
        a
    }

    /// Appends one value per string, all for `for_id`, in order.
    pub fn extend(self, for_id: &str, values: &Vec<String>) -> (r: Self)
        ensures
            r.values() == self.values() + repeated(for_id@, values@),
    {
        let mut a = self;
        let mut i: usize = 0;
        while i < values.len()
            invariant
                i <= values.len(),
                a.values() == self.values() + repeated(for_id@, values@.take(i as int)),
            decreases values.len() - i,
        {
            let ghost prev = a.values();
            a.attribute.push(Attribute { for_id: for_id.to_string(), value: values[i].clone() });
            assert(a.values() =~= prev.push((for_id@, values@[i as int]@)));
            assert(repeated(for_id@, values@.take(i + 1)) =~= repeated(
                for_id@,
                values@.take(i as int),
            ).push((for_id@, values@[i as int]@)));
            assert(a.values() =~= self.values() + repeated(for_id@, values@.take(i + 1)));
            i = i + 1;
        }
        assert(values@.take(values.len() as int) =~= values@);
        a
    }
}

/// `<attvalue for=".." value=".."/>`.
pub open spec fn attvalue_xml(e: (Seq<char>, Seq<char>)) -> Seq<char> {
    "<attvalue"@ + xml_attr("for"@, e.0) + xml_attr("value"@, e.1) + "/>"@
}

pub open spec fn attvalues_xml(es: Seq<(Seq<char>, Seq<char>)>) -> Seq<char>
    decreases es.len(),
{
    if es.len() == 0 {
        Seq::empty()
    } else {
        attvalues_xml(es.drop_last()) + attvalue_xml(es.last())
    }
}

/// The attribute values of a component: SBOM id, document id, then one per
/// CPE and one per PURL.
pub open spec fn component_values(c: Component) -> Seq<(Seq<char>, Seq<char>)> {
    seq![(Attr::SbomId.id(), c.sbom_id@), (Attr::DocumentId.id(), c.document_id@)] + repeated(
        Attr::Cpe.id(),
        c.cpe@,
    ) + repeated(Attr::Purl.id(), c.purl@)
}

/// The node of one component, labelled with its name.
pub open spec fn node_xml(c: Component) -> Seq<char> {
    element(
        "<node"@ + xml_attr("id"@, canonical(c.key())) + xml_attr("label"@, c.name@),
        "node"@,
        element("<attvalues"@, "attvalues"@, attvalues_xml(component_values(c))),
    )
}

pub open spec fn nodes_xml(ns: Seq<Component>) -> Seq<char>
    decreases ns.len(),
{
    if ns.len() == 0 {
        Seq::empty()
    } else {
        nodes_xml(ns.drop_last()) + node_xml(ns.last())
    }
}

/// The edge of one relationship, labelled with it.
pub open spec fn edge_xml(r: Relationship) -> Seq<char> {
    "<edge"@ + xml_attr("source"@, canonical(r.from@)) + xml_attr("target"@, canonical(r.to@))
        + xml_attr("label"@, r.label@) + "/>"@
}

pub open spec fn edges_xml(rs: Seq<Relationship>) -> Seq<char>
    decreases rs.len(),
{
    if rs.len() == 0 {
        Seq::empty()
    } else {
        edges_xml(rs.drop_last()) + edge_xml(rs.last())
    }
}

/// `<name>body</name>`, or nothing at all when `body` is empty.
pub open spec fn wrapped(name: Seq<char>, body: Seq<char>) -> Seq<char> {
    if body.len() == 0 {
        Seq::empty()
    } else {
        "<"@ + name + ">"@ + body + "</"@ + name + ">"@
    }
}

/// The declarations of the four node attributes.
pub open spec fn gexf_attributes() -> Seq<char> {
    "<attributes class=\"node\"><attribute id=\"SbomId\" title=\"SBOM ID\" type=\"string\"/><attribute id=\"DocumentId\" title=\"Document ID\" type=\"string\"/><attribute id=\"Cpe\" title=\"CPE\" type=\"liststring\"/><attribute id=\"Purl\" title=\"PURL\" type=\"liststring\"/></attributes>"@
}

/// The whole GEXF document of a graph, last modified at `modified`.
pub open spec fn gexf_doc(g: Graph, modified: Seq<char>) -> Seq<char> {
    "<gexf version=\"1.3\" xmlns=\"http://gexf.net/1.3\"><meta"@ + xml_attr(
        "lastmodifieddate"@,
        modified,
    ) + "><creator>treeify</creator></meta><graph mode=\"static\" defaultedgetype=\"directed\">"@
        + gexf_attributes() + wrapped("nodes"@, nodes_xml(g.nodes@)) + wrapped(
        "edges"@,
        edges_xml(g.relationships@),
    ) + "</graph></gexf>"@
}

fn render_attvalues(es: &Vec<Attribute>) -> (r: String)
    ensures
        r@ == attvalues_xml(values_of(es@)),
{
    let mut r = String::new();
    let mut i: usize = 0;
    while i < es.len()
        invariant
            i <= es.len(),
            r@ == attvalues_xml(values_of(es@.take(i as int))),
        decreases es.len() - i,
    {
        r.append("<attvalue");
        push_attr(&mut r, "for", es[i].for_id.as_str());
        push_attr(&mut r, "value", es[i].value.as_str());
        r.append("/>");
        proof {
            let t = values_of(es@.take(i + 1));
            assert(t.drop_last() =~= values_of(es@.take(i as int)));
            assert(t.last() == (es@[i as int].for_id@, es@[i as int].value@));
            assert(r@ =~= attvalues_xml(t));
        }
        i = i + 1;
    }
    assert(es@.take(es.len() as int) =~= es@);
    r
}

fn render_node(c: &Component) -> (r: String)
    ensures
        r@ == node_xml(*c),
{
    let values = Attributes::new().add(Attr::SbomId.as_str(), c.sbom_id.as_str()).add(
        Attr::DocumentId.as_str(),
        c.document_id.as_str(),
    ).extend(Attr::Cpe.as_str(), &c.cpe).extend(Attr::Purl.as_str(), &c.purl);
    assert(values.values() =~= component_values(*c));
    let inner = render_attvalues(&values.attribute);
    let mut body = String::new();
    push_element(&mut body, "<attvalues", "attvalues", inner.as_str());
    let key = crate::model::Key { sbom: c.sbom_id.clone(), node: c.node_id.clone() };
    let id = key.canonical_string();
    let mut open = String::new();
    open.append("<node");
    push_attr(&mut open, "id", id.as_str());
    push_attr(&mut open, "label", c.name.as_str());
    let mut r = String::new();
    push_element(&mut r, open.as_str(), "node", body.as_str());
    assert(r@ =~= node_xml(*c));
    r
}

fn render_edge(e: &Relationship) -> (r: String)
    ensures
        r@ == edge_xml(*e),
{
    let from = e.from.canonical_string();
    let to = e.to.canonical_string();
    let mut r = String::new();
    r.append("<edge");
    push_attr(&mut r, "source", from.as_str());
    push_attr(&mut r, "target", to.as_str());
    push_attr(&mut r, "label", e.label.as_str());
    r.append("/>");
    assert(r@ =~= edge_xml(*e));
    r
}

/// Appends `<name>body</name>`, or nothing when `body` is empty.
fn push_wrapped(r: &mut String, name: &str, body: &str)
    ensures
        final(r)@ == old(r)@ + wrapped(name@, body@),
{
    if !body.is_empty() {
        r.append("<");
        r.append(name);
        r.append(">");
        r.append(body);
        r.append("</");
        r.append(name);
        r.append(">");
    }
    assert(final(r)@ =~= old(r)@ + wrapped(name@, body@));
}

/// Relies on `time::OffsetDateTime::now_utc` and its RFC 3339 formatting: the
/// current time, or nothing where it cannot be formatted.
#[verifier::external_body]
fn now_rfc3339() -> (r: Option<String>) {
    time::OffsetDateTime::now_utc().format(&time::format_description::well_known::Rfc3339).ok()
}

impl Graph {
    /// The graph as a GEXF document stamped with `modified`: one flat node
    /// per component, then the edges.
    pub fn render_gexf_at(&self, modified: &str) -> (r: String)
        ensures
            r@ == gexf_doc(*self, modified@),
    {
        let mut nodes = String::new();
        let mut i: usize = 0;
        while i < self.nodes.len()
            invariant
                i <= self.nodes.len(),
                nodes@ == nodes_xml(self.nodes@.take(i as int)),
            decreases self.nodes.len() - i,
        {
            let node = render_node(&self.nodes[i]);
            nodes.append(node.as_str());
            proof {
                let t = self.nodes@.take(i + 1);
                assert(t.drop_last() =~= self.nodes@.take(i as int));
                assert(nodes@ =~= nodes_xml(t));
            }
            i = i + 1;
        }
        assert(self.nodes@.take(self.nodes.len() as int) =~= self.nodes@);
        let mut edges = String::new();
        let mut j: usize = 0;
        while j < self.relationships.len()
            invariant
                j <= self.relationships.len(),
                edges@ == edges_xml(self.relationships@.take(j as int)),
            decreases self.relationships.len() - j,
        {
            let edge = render_edge(&self.relationships[j]);
            edges.append(edge.as_str());
            proof {
                let t = self.relationships@.take(j + 1);
                assert(t.drop_last() =~= self.relationships@.take(j as int));
                assert(edges@ =~= edges_xml(t));
            }
            j = j + 1;
        }
        assert(self.relationships@.take(self.relationships.len() as int) =~= self.relationships@);
        let mut r = String::new();
        r.append("<gexf version=\"1.3\" xmlns=\"http://gexf.net/1.3\"><meta");
        push_attr(&mut r, "lastmodifieddate", modified);
        r.append(
            "><creator>treeify</creator></meta><graph mode=\"static\" defaultedgetype=\"directed\">",
        );
        r.append(
            "<attributes class=\"node\"><attribute id=\"SbomId\" title=\"SBOM ID\" type=\"string\"/><attribute id=\"DocumentId\" title=\"Document ID\" type=\"string\"/><attribute id=\"Cpe\" title=\"CPE\" type=\"liststring\"/><attribute id=\"Purl\" title=\"PURL\" type=\"liststring\"/></attributes>",
        );
        push_wrapped(&mut r, "nodes", nodes.as_str());
        push_wrapped(&mut r, "edges", edges.as_str());
        r.append("</graph></gexf>");
        assert(r@ =~= gexf_doc(*self, modified@));
        r
    }

    /// The graph as a GEXF document stamped with the current time; nothing
    /// where the current time cannot be written.
    pub fn render_gexf(&self) -> (r: Option<String>)
        ensures
            r matches Some(doc) ==> exists|t: Seq<char>| doc@ == gexf_doc(*self, t),
    {
        match now_rfc3339() {
            Some(now) => Some(self.render_gexf_at(now.as_str())),
            None => None,
        }
    }
}

} // verus!
