use vstd::prelude::*;

verus! {

/// One page of results as delivered by the SBOM service.
#[derive(Clone, Debug, PartialEq, Eq)]
pub struct PaginatedResult<T> {
    pub items: Vec<T>,
    pub total: usize,
}

/// One component of one SBOM, together with the sub-trees of the components
/// upstream (`ancestors`) and downstream (`descendants`) of it.
pub struct Node {
    pub sbom_id: String,
    pub node_id: String,
    pub purl: Vec<String>,
    pub cpe: Vec<String>,
    pub name: String,
    pub published: String,
    pub document_id: String,
    pub product_name: Option<String>,
    pub product_version: Option<String>,
    pub relationship: Option<String>,
    pub ancestors: Vec<Node>,
    pub descendants: Vec<Node>,
}

/// A two-part identifier naming one component of one SBOM; ordered by SBOM
/// id, then node id.
#[derive(Clone, Debug, PartialEq, Eq, Hash, PartialOrd, Ord)]
pub struct Key {
    pub sbom: String,
    pub node: String,
}

/// The abstract value of a key: its two parts as character sequences.
pub type KeyView = (Seq<char>, Seq<char>);

impl Key {
    pub open spec fn view(&self) -> KeyView {
        (self.sbom@, self.node@)
    }

    /// Plain rendering `"{sbom}--{node}"`, without escaping.
    pub fn canonical_string(&self) -> (r: String)
        ensures
            r@ == canonical(self@),
    {
        let mut r = self.sbom.clone();
        r.append("--");
        r.append(self.node.as_str());
        proof {
            reveal_strlit("--");
            assert(r@ =~= canonical(self@));
        }
        r
    }
}

/// The separator placed between the two parts of a key.
pub open spec fn key_separator() -> Seq<char> {
    seq!['-', '-']
}

/// `"{sbom}--{node}"`. Two keys whose parts hold no `-` get distinct
/// renderings; parts that contain the separator may collide.
pub open spec fn canonical(k: KeyView) -> Seq<char> {
    k.0 + key_separator() + k.1
}

impl Node {
    /// The key of this component.
    pub open spec fn key(&self) -> KeyView {
        (self.sbom_id@, self.node_id@)
    }

    pub fn as_key(&self) -> (r: Key)
        ensures
            r@ == self.key(),
    {
        Key { sbom: self.sbom_id.clone(), node: self.node_id.clone() }
    }
}

} // verus!
