//! A named, nested graph instance: the nodes created while loading it and
//! the aliases that expose some of their ports at its boundary.

use vstd::prelude::*;
use crate::table::Table;

verus! {

/// Mathematical content of a [`Subgraph`]: node names in load order, and
/// the two alias maps, each from an externally visible port name to the
/// concrete `(node, port)` pair behind it.
pub ghost struct SubgraphModel {
    pub nodes: Seq<Seq<char>>,
    pub ext_in: Map<Seq<char>, (Seq<char>, Seq<char>)>,
    pub ext_out: Map<Seq<char>, (Seq<char>, Seq<char>)>,
}

/// One named, nested instance of a graph.
pub struct Subgraph {
    nodes: Vec<String>,
    ext_in: Table<(String, String)>,
    ext_out: Table<(String, String)>,
}

impl View for Subgraph {
    type V = SubgraphModel;

    closed spec fn view(&self) -> SubgraphModel {
        SubgraphModel {
            nodes: self.nodes@.map_values(|s: String| s@),
            ext_in: self.ext_in.model(),
            ext_out: self.ext_out.model(),
        }
    }
}

impl Subgraph {
    /// Alias names are unique within each direction.
    pub closed spec fn wf(&self) -> bool {
        self.ext_in.wf() && self.ext_out.wf()
    }

    /// An empty subgraph: no nodes, no boundary aliases.
    pub fn new() -> (r: Subgraph)
        ensures
            r.wf(),
            r@.nodes == Seq::<Seq<char>>::empty(),
            r@.ext_in == Map::<Seq<char>, (Seq<char>, Seq<char>)>::empty(),
            r@.ext_out == Map::<Seq<char>, (Seq<char>, Seq<char>)>::empty(),
    {
        let r = Subgraph { nodes: Vec::new(), ext_in: Table::new(), ext_out: Table::new() };
        proof {
            assert(r@.nodes =~= Seq::<Seq<char>>::empty());
        }
        r
    }

    /// Records one more node as belonging to this subgraph.
    pub fn record_node(&mut self, name: String)
        requires
            old(self).wf(),
        ensures
            final(self).wf(),
            final(self)@.nodes == old(self)@.nodes.push(name@),
            final(self)@.ext_in == old(self)@.ext_in,
            final(self)@.ext_out == old(self)@.ext_out,
    {
        self.nodes.push(name);
        proof {
            assert(self@.nodes =~= old(self)@.nodes.push(self.nodes@.last()@));
        }
    }

    /// Declares an externally visible input alias.
    pub fn insert_ext_in(&mut self, alias: String, node: String, port: String)
        requires
            old(self).wf(),
        ensures
            final(self).wf(),
            final(self)@.ext_in == old(self)@.ext_in.insert(alias@, (node@, port@)),
            final(self)@.nodes == old(self)@.nodes,
            final(self)@.ext_out == old(self)@.ext_out,
    {
        self.ext_in.insert(alias, (node, port));
    }

    /// Declares an externally visible output alias.
    pub fn insert_ext_out(&mut self, alias: String, node: String, port: String)
        requires
            old(self).wf(),
        ensures
            final(self).wf(),
            final(self)@.ext_out == old(self)@.ext_out.insert(alias@, (node@, port@)),
            final(self)@.nodes == old(self)@.nodes,
            final(self)@.ext_in == old(self)@.ext_in,
    {
        self.ext_out.insert(alias, (node, port));
    }

    /// The concrete `(node, port)` behind an input alias, if one is declared.
    pub fn lookup_ext_in(&self, alias: &str) -> (r: Option<(String, String)>)
        ensures
            match r {
                Some(p) => self@.ext_in.contains_key(alias@) && (p.0@, p.1@) == self@.ext_in[alias@],
                None => !self@.ext_in.contains_key(alias@),
            },
    {
        match self.ext_in.get(alias) {
            Some(p) => Some((p.0.clone(), p.1.clone())),
            None => None,
        }
    }

    /// The concrete `(node, port)` behind an output alias, if one is declared.
    pub fn lookup_ext_out(&self, alias: &str) -> (r: Option<(String, String)>)
        ensures
            match r {
                Some(p) => self@.ext_out.contains_key(alias@) && (p.0@, p.1@)
                    == self@.ext_out[alias@],
                None => !self@.ext_out.contains_key(alias@),
            },
    {
        match self.ext_out.get(alias) {
            Some(p) => Some((p.0.clone(), p.1.clone())),
            None => None,
        }
    }

    /// The names of the nodes recorded in this subgraph, in load order.
    pub fn node_names(&self) -> (r: &Vec<String>)
        ensures
            r@.map_values(|s: String| s@) == self@.nodes,
    {
        &self.nodes
    }
}

} // verus!
