use vstd::prelude::*;

use petgraph::graph::{DiGraph, Graph};
use petgraph::Directed;

verus! {

/// The outside graph type; its nodes and edges are named below.
#[verifier::external_type_specification]
#[verifier::external_body]
#[verifier::reject_recursive_types(N)]
#[verifier::reject_recursive_types(E)]
#[verifier::reject_recursive_types(Ty)]
#[verifier::reject_recursive_types(Ix)]
pub struct ExGraph<N, E, Ty, Ix>(Graph<N, E, Ty, Ix>);

/// The outside marker for directed graphs.
#[verifier::external_type_specification]
#[verifier::external_body]
pub struct ExDirected(Directed);

/// The node labels of a graph, in index order.
pub uninterp spec fn graph_nodes(g: Graph<String, (), Directed, u32>) -> Seq<String>;

/// The edges of a graph, as (source, target) node indices, in index order.
pub uninterp spec fn graph_edges(g: Graph<String, (), Directed, u32>) -> Seq<(nat, nat)>;

/// `DiGraph::new`: a directed graph with no nodes and no edges.
#[verifier::external_body]
fn empty_digraph() -> (g: DiGraph<String, ()>)
    ensures
        graph_nodes(g) == Seq::<String>::empty(),
        graph_edges(g) == Seq::<(nat, nat)>::empty(),
{
    DiGraph::new()
}

/// A Bayesian network: a directed graph of named variables.
pub struct BayesianNetwork {
    pub graph: DiGraph<String, ()>,
}

impl BayesianNetwork {
    /// A network with no variables and no dependencies.
    pub fn new() -> (n: Self)
        ensures
            graph_nodes(n.graph) == Seq::<String>::empty(),
            graph_edges(n.graph) == Seq::<(nat, nat)>::empty(),
    {
        BayesianNetwork { graph: empty_digraph() }
    }
}

} // verus!
