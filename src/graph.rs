use vstd::prelude::*;

use crate::keyed::{keyed, lemma_keyed_push, lemma_keyed_update, unique_keys};
use crate::model::{Key, KeyView, Node};

verus! {

/// The metadata kept for one SBOM.
pub struct Sbom {
    pub id: String,
    pub document_id: String,
    pub published: String,
}

/// The attributes of one component that the graph keeps.
pub struct Component {
    pub sbom_id: String,
    pub node_id: String,
    pub name: String,
    pub document_id: String,
    pub published: String,
    pub purl: Vec<String>,
    pub cpe: Vec<String>,
}

/// A directed, labelled edge between two components.
pub struct Relationship {
    pub from: Key,
    pub to: Key,
    pub label: String,
}

/// Abstract value of a component.
pub struct ComponentView {
    pub sbom_id: Seq<char>,
    pub node_id: Seq<char>,
    pub name: Seq<char>,
    pub document_id: Seq<char>,
    pub published: Seq<char>,
    pub purl: Seq<String>,
    pub cpe: Seq<String>,
}

/// Abstract value of a flattened graph: SBOM metadata `(document_id,
/// published)` by SBOM id, components by key, and edge labels by
/// `(source, target)`.
pub struct FlatGraph {
    pub sboms: Map<Seq<char>, (Seq<char>, Seq<char>)>,
    pub nodes: Map<KeyView, ComponentView>,
    pub relationships: Map<(KeyView, KeyView), Seq<char>>,
}

/// A deduplicated graph of components and relationships.
pub struct Graph {
    pub sboms: Vec<Sbom>,
    pub nodes: Vec<Component>,
    pub relationships: Vec<Relationship>,
}

impl Component {
    pub open spec fn key(&self) -> KeyView {
        (self.sbom_id@, self.node_id@)
    }

    pub open spec fn view(&self) -> ComponentView {
        ComponentView {
            sbom_id: self.sbom_id@,
            node_id: self.node_id@,
            name: self.name@,
            document_id: self.document_id@,
            published: self.published@,
            purl: self.purl@,
            cpe: self.cpe@,
        }
    }
}

impl Relationship {
    pub open spec fn ends(&self) -> (KeyView, KeyView) {
        (self.from@, self.to@)
    }
}

impl Node {
    /// The attributes of this node that a graph keeps.
    pub open spec fn component(&self) -> ComponentView {
        ComponentView {
            sbom_id: self.sbom_id@,
            node_id: self.node_id@,
            name: self.name@,
            document_id: self.document_id@,
            published: self.published@,
            purl: self.purl@,
            cpe: self.cpe@,
        }
    }
}

pub open spec fn sbom_id_of() -> spec_fn(Sbom) -> Seq<char> {
    |s: Sbom| s.id@
}

pub open spec fn sbom_meta_of() -> spec_fn(Sbom) -> (Seq<char>, Seq<char>) {
    |s: Sbom| (s.document_id@, s.published@)
}

pub open spec fn component_key() -> spec_fn(Component) -> KeyView {
    |c: Component| c.key()
}

pub open spec fn component_view() -> spec_fn(Component) -> ComponentView {
    |c: Component| c@
}

pub open spec fn relationship_ends() -> spec_fn(Relationship) -> (KeyView, KeyView) {
    |r: Relationship| r.ends()
}

pub open spec fn relationship_label() -> spec_fn(Relationship) -> Seq<char> {
    |r: Relationship| r.label@
}

/// The empty graph.
pub open spec fn empty_graph() -> FlatGraph {
    FlatGraph { sboms: Map::empty(), nodes: Map::empty(), relationships: Map::empty() }
}

/// The edge that links node `n`, reached from `parent`, records: from `n` to
/// the parent when `n` was listed among the parent's ancestors, from the
/// parent to `n` when it was listed among its descendants.
pub open spec fn edge_ends(n: Node, parent: KeyView, reverse: bool) -> (KeyView, KeyView) {
    if reverse {
        (n.key(), parent)
    } else {
        (parent, n.key())
    }
}

/// What visiting one node adds to the graph, before its sub-trees: its SBOM
/// when the SBOM is new, the edge to its parent when it carries a
/// relationship, and the node itself, replacing an earlier one with its key.
pub open spec fn visit(g: FlatGraph, n: Node, parent: Option<KeyView>, reverse: bool) -> FlatGraph {
    FlatGraph {
        sboms: if g.sboms.contains_key(n.sbom_id@) {
            g.sboms
        } else {
            g.sboms.insert(n.sbom_id@, (n.document_id@, n.published@))
        },
        nodes: g.nodes.insert(n.key(), n.component()),
        relationships: if parent is Some && n.relationship is Some {
            g.relationships.insert(
                edge_ends(n, parent->0, reverse),
                n.relationship->0@,
            )
        } else {
            g.relationships
        },
    }
}

/// Pre-order walk of the siblings `ns` in order, each followed by its
/// ancestors and then its descendants.
pub open spec fn scan(g: FlatGraph, ns: Seq<Node>, parent: Option<KeyView>, reverse: bool) -> FlatGraph
    decreases ns,
{
    if ns.len() == 0 {
        g
    } else {
        let n = ns.last();
        let g1 = visit(scan(g, ns.drop_last(), parent, reverse), n, parent, reverse);
        let g2 = scan(g1, n.ancestors@, Some(n.key()), true);
        scan(g2, n.descendants@, Some(n.key()), false)
    }
}

/// The graph built from a list of root nodes.
pub open spec fn build(roots: Seq<Node>) -> FlatGraph {
    scan(empty_graph(), roots, None, false)
}

impl Graph {
    pub open spec fn view(&self) -> FlatGraph {
        FlatGraph {
            sboms: keyed(self.sboms@, sbom_id_of(), sbom_meta_of()),
            nodes: keyed(self.nodes@, component_key(), component_view()),
            relationships: keyed(self.relationships@, relationship_ends(), relationship_label()),
        }
    }

    /// No SBOM id, component key or edge occurs twice.
    pub open spec fn wf(&self) -> bool {
        &&& unique_keys(self.sboms@, sbom_id_of())
        &&& unique_keys(self.nodes@, component_key())
        &&& unique_keys(self.relationships@, relationship_ends())
    }
}

/// The key of an optional parent node.
pub open spec fn key_of(parent: Option<&Node>) -> Option<KeyView> {
    match parent {
        Some(p) => Some(p.key()),
        None => None,
    }
}

/// Copies a list of strings.
fn copy_strings(v: &Vec<String>) -> (r: Vec<String>)
    ensures
        r@ == v@,
{
    let mut r: Vec<String> = Vec::new();
    let mut i: usize = 0;
    while i < v.len()
        invariant
            i <= v.len(),
            r@ == v@.take(i as int),
        decreases v.len() - i,
    {
        r.push(v[i].clone());
        proof {
            assert(v@.take(i + 1) =~= v@.take(i as int).push(v@[i as int]));
        }
        i = i + 1;
    }
    proof {
        assert(v@.take(v.len() as int) =~= v@);
    }
    r
}

impl Graph {
    /// Records the SBOM of `n` unless its id is known already.
    fn add_sbom(&mut self, n: &Node)
        requires
            old(self).wf(),
        ensures
            final(self).wf(),
            final(self).nodes == old(self).nodes,
            final(self).relationships == old(self).relationships,
            final(self)@.sboms == (if old(self)@.sboms.contains_key(n.sbom_id@) {
                old(self)@.sboms
            } else {
                old(self)@.sboms.insert(n.sbom_id@, (n.document_id@, n.published@))
            }),
    {
        let mut j: usize = 0;
        while j < self.sboms.len()
            invariant
                *self == *old(self),
                old(self).wf(),
                j <= self.sboms.len(),
                forall|k: int| 0 <= k < j ==> (#[trigger] self.sboms@[k]).id@ != n.sbom_id@,
            decreases self.sboms.len() - j,
        {
            if self.sboms[j].id == n.sbom_id {
                proof {
                    assert(sbom_id_of()(self.sboms@[j as int]) == n.sbom_id@);
                }
                return;
            }
            j = j + 1;
        }
        let s = Sbom {
            id: n.sbom_id.clone(),
            document_id: n.document_id.clone(),
            published: n.published.clone(),
        };
        proof {
            lemma_keyed_push(self.sboms@, sbom_id_of(), sbom_meta_of(), s);
        }
        self.sboms.push(s);
    }

    /// Stores the attributes of `n` under its key, replacing what was there.
    fn add_node(&mut self, n: &Node)
        requires
            old(self).wf(),
        ensures
            final(self).wf(),
            final(self).sboms == old(self).sboms,
            final(self).relationships == old(self).relationships,
            final(self)@.nodes == old(self)@.nodes.insert(n.key(), n.component()),
    {
        let c = Component {
            sbom_id: n.sbom_id.clone(),
            node_id: n.node_id.clone(),
            name: n.name.clone(),
            document_id: n.document_id.clone(),
            published: n.published.clone(),
            purl: copy_strings(&n.purl),
            cpe: copy_strings(&n.cpe),
        };
        assert(component_view()(c) == n.component());
        assert(component_key()(c) == n.key());
        let mut j: usize = 0;
        while j < self.nodes.len()
            invariant
                *self == *old(self),
                old(self).wf(),
                j <= self.nodes.len(),
                component_key()(c) == n.key(),
                component_view()(c) == n.component(),
                forall|k: int| 0 <= k < j ==> (#[trigger] self.nodes@[k]).key() != n.key(),
            decreases self.nodes.len() - j,
        {
            if self.nodes[j].sbom_id == n.sbom_id && self.nodes[j].node_id == n.node_id {
                proof {
                    assert(component_key()(self.nodes@[j as int]) == component_key()(c));
                    lemma_keyed_update(self.nodes@, component_key(), component_view(), j as int, c);
                }
                self.nodes.set(j, c);
                return;
            }
            j = j + 1;
        }
        proof {
            lemma_keyed_push(self.nodes@, component_key(), component_view(), c);
        }
        self.nodes.push(c);
    }

    /// Labels the edge from `from` to `to`, replacing an earlier label.
    fn add_relationship(&mut self, from: Key, to: Key, label: String)
        requires
            old(self).wf(),
        ensures
            final(self).wf(),
            final(self).sboms == old(self).sboms,
            final(self).nodes == old(self).nodes,
            final(self)@.relationships == old(self)@.relationships.insert((from@, to@), label@),
    {
        let r = Relationship { from, to, label };
        assert(relationship_ends()(r) == (from@, to@));
        assert(relationship_label()(r) == label@);
        let mut j: usize = 0;
        while j < self.relationships.len()
            invariant
                *self == *old(self),
                old(self).wf(),
                j <= self.relationships.len(),
                relationship_ends()(r) == (from@, to@),
                relationship_label()(r) == label@,
                forall|k: int|
                    0 <= k < j ==> (#[trigger] self.relationships@[k]).ends() != r.ends(),
            decreases self.relationships.len() - j,
        {
            let e = &self.relationships[j];
            if e.from.sbom == r.from.sbom && e.from.node == r.from.node && e.to.sbom == r.to.sbom
                && e.to.node == r.to.node {
                proof {
                    assert(relationship_ends()(self.relationships@[j as int]) == relationship_ends()(
                        r,
                    ));
                    lemma_keyed_update(
                        self.relationships@,
                        relationship_ends(),
                        relationship_label(),
                        j as int,
                        r,
                    );
                }
                self.relationships.set(j, r);
                return;
            }
            j = j + 1;
        }
        proof {
            lemma_keyed_push(self.relationships@, relationship_ends(), relationship_label(), r);
        }
        self.relationships.push(r);
    }

    /// Visits `input` in order below `parent`, recording every node, SBOM
    /// and edge met on the way.
    fn walk(&mut self, input: &[Node], parent: Option<&Node>, reverse: bool)
        requires
            old(self).wf(),
        ensures
            final(self).wf(),
            final(self)@ == scan(old(self)@, input@, key_of(parent), reverse),
        decreases input@,
    {
        let ghost g0 = self@;
        let mut i: usize = 0;
        while i < input.len()
            invariant
                self.wf(),
                i <= input.len(),
                self@ == scan(g0, input@.take(i as int), key_of(parent), reverse),
            decreases input.len() - i,
        {
            let node = &input[i];
            let ghost before = self@;
            self.add_sbom(node);
            match parent {
                Some(p) => match &node.relationship {
                    Some(rel) => {
                        if reverse {
                            self.add_relationship(node.as_key(), p.as_key(), rel.clone());
                        } else {
                            self.add_relationship(p.as_key(), node.as_key(), rel.clone());
                        }
                    },
                    None => {},
                },
                None => {},
            }
            self.add_node(node);
            proof {
                assert(self@ == visit(before, *node, key_of(parent), reverse));
            }
            self.walk(node.ancestors.as_slice(), Some(node), true);
            self.walk(node.descendants.as_slice(), Some(node), false);
            proof {
                let t = input@.take(i + 1);
                assert(t.drop_last() =~= input@.take(i as int));
                assert(t.last() == input@[i as int]);
            }
            i = i + 1;
        }
        proof {
            assert(input@.take(input.len() as int) =~= input@);
        }
    }

    /// Flattens the trees below `input` into one graph.
    pub fn new(input: &[Node]) -> (g: Self)
        ensures
            g.wf(),
            g@ == build(input@),
    {
        let mut g = Graph { sboms: Vec::new(), nodes: Vec::new(), relationships: Vec::new() };
        assert(g@.sboms =~= Map::empty());
        assert(g@.nodes =~= Map::empty());
        assert(g@.relationships =~= Map::empty());
        g.walk(input, None, false);
        g
    }
}

} // verus!
