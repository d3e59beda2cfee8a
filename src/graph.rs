//! The dependency graph: one root node per manifest, one leaf node per
//! direct dependency, and an edge labelled `dependency` from root to leaf.

use vstd::prelude::*;
use petgraph::graph::{EdgeIndex, NodeIndex};
use petgraph::{Directed, Graph};
use crate::manifest::{Package, PackageView};

verus! {

/// petgraph's adjacency-list graph, opaque here: what it holds is seen
/// through `graph_nodes` and `graph_edges`.
#[verifier::external_type_specification]
#[verifier::external_body]
#[verifier::reject_recursive_types(N)]
#[verifier::reject_recursive_types(E)]
#[verifier::reject_recursive_types(Ty)]
#[verifier::reject_recursive_types(Ix)]
pub struct ExGraph<N, E, Ty, Ix>(Graph<N, E, Ty, Ix>);

/// petgraph's marker for directed edges, the graph's default edge kind.
#[verifier::external_type_specification]
#[verifier::external_body]
pub struct ExDirected(Directed);

/// The petgraph store that holds the nodes and edges.
pub type PackageGraph = Graph<Package, &'static str>;

/// The weights of the store's nodes, by index, each seen as its package's
/// name and version.
pub uninterp spec fn graph_nodes(g: PackageGraph) -> Seq<(Seq<char>, Seq<char>)>;

/// The store's edges, by index, each seen as its source index, its target
/// index and its label.
pub uninterp spec fn graph_edges(g: PackageGraph) -> Seq<(nat, nat, Seq<char>)>;

/// The largest number of nodes, and of edges, that the store can hold: its
/// indices are `u32`, and the last value is kept as an end marker.
pub const MAX_ITEMS: usize = 4294967295;

/// Relies on petgraph's `Graph::new`: a graph with no nodes and no edges.
#[verifier::external_body]
fn store_new() -> (r: PackageGraph)
    ensures
        graph_nodes(r).len() == 0,
        graph_edges(r).len() == 0,
{
    Graph::new()
}

/// Relies on petgraph's `Graph::add_node`: pushes the weight as the node with
/// the next index. It panics once the index space is full, which `requires`
/// excludes.
#[verifier::external_body]
fn store_add_node(g: &mut PackageGraph, p: Package) -> (r: usize)
    requires
        graph_nodes(*old(g)).len() < MAX_ITEMS,
    ensures
        r == graph_nodes(*old(g)).len(),
        graph_nodes(*final(g)) == graph_nodes(*old(g)).push((p@.name, p@.version)),
        graph_edges(*final(g)) == graph_edges(*old(g)),
{
    g.add_node(p).index()
}

/// Relies on petgraph's `Graph::add_edge`: pushes the edge with the next
/// index. It panics on a missing endpoint or once the index space is full,
/// which `requires` excludes.
#[verifier::external_body]
fn store_add_edge(g: &mut PackageGraph, a: usize, b: usize, w: &'static str)
    requires
        a < graph_nodes(*old(g)).len(),
        b < graph_nodes(*old(g)).len(),
        graph_nodes(*old(g)).len() <= MAX_ITEMS,
        graph_edges(*old(g)).len() < MAX_ITEMS,
    ensures
        graph_nodes(*final(g)) == graph_nodes(*old(g)),
        graph_edges(*final(g)) == graph_edges(*old(g)).push((a as nat, b as nat, w@)),
{
    g.add_edge(NodeIndex::new(a), NodeIndex::new(b), w);
}

/// Relies on petgraph's `Graph::node_count`: the number of nodes.
#[verifier::external_body]
fn store_node_count(g: &PackageGraph) -> (r: usize)
    ensures
        r == graph_nodes(*g).len(),
{
    g.node_count()
}

/// Relies on petgraph's `Graph::edge_count`: the number of edges.
#[verifier::external_body]
fn store_edge_count(g: &PackageGraph) -> (r: usize)
    ensures
        r == graph_edges(*g).len(),
{
    g.edge_count()
}

/// Relies on petgraph's `Graph::node_weight`: the weight of an existing node.
#[verifier::external_body]
fn store_node_weight(g: &PackageGraph, i: usize) -> (r: Option<&Package>)
    requires
        i < graph_nodes(*g).len() <= MAX_ITEMS,
    ensures
        r is Some,
        (r.unwrap()@.name, r.unwrap()@.version) == graph_nodes(*g)[i as int],
{
    g.node_weight(NodeIndex::new(i))
}

/// Relies on petgraph's `Graph::edge_endpoints`: the source and target of an
/// existing edge.
#[verifier::external_body]
fn store_edge_endpoints(g: &PackageGraph, i: usize) -> (r: Option<(usize, usize)>)
    requires
        i < graph_edges(*g).len() <= MAX_ITEMS,
    ensures
        r is Some,
        r.unwrap().0 as nat == graph_edges(*g)[i as int].0,
        r.unwrap().1 as nat == graph_edges(*g)[i as int].1,
{
    g.edge_endpoints(EdgeIndex::new(i)).map(|(a, b)| (a.index(), b.index()))
}

/// Relies on petgraph's `Graph::edge_weight`: the label of an existing edge.
#[verifier::external_body]
fn store_edge_weight(g: &PackageGraph, i: usize) -> (r: Option<&'static str>)
    requires
        i < graph_edges(*g).len() <= MAX_ITEMS,
    ensures
        r is Some,
        r.unwrap()@ == graph_edges(*g)[i as int].2,
{
    g.edge_weight(EdgeIndex::new(i)).copied()
}

/// The graph in mathematical terms: node `i` is the `i`-th node inserted,
/// seen as a name and a version; each edge is a source index, a target index
/// and a label.
pub ghost struct GraphView {
    pub nodes: Seq<(Seq<char>, Seq<char>)>,
    pub edges: Seq<(nat, nat, Seq<char>)>,
}

/// The label that every edge carries.
pub open spec fn dependency_label() -> Seq<char> {
    "dependency"@
}

/// A graph that the store can hold, whose edges join existing nodes.
pub open spec fn graph_well_formed(g: GraphView) -> bool {
    &&& g.nodes.len() <= MAX_ITEMS
    &&& g.edges.len() <= MAX_ITEMS
    &&& forall|i: int| 0 <= i < g.edges.len() ==> {
        &&& #[trigger] g.edges[i].0 < g.nodes.len()
        &&& g.edges[i].1 < g.nodes.len()
    }
}

/// The graph with no nodes and no edges.
pub open spec fn empty_graph() -> GraphView {
    GraphView { nodes: Seq::empty(), edges: Seq::empty() }
}

/// Every dependency of the table declares its version as text.
pub open spec fn all_text(deps: Seq<(Seq<char>, Option<Seq<char>>)>) -> bool {
    forall|i: int| 0 <= i < deps.len() ==> (#[trigger] deps[i]).1 is Some
}

/// Entry `j` is the first of the table whose version is not text.
pub open spec fn first_non_text(deps: Seq<(Seq<char>, Option<Seq<char>>)>, j: int) -> bool {
    &&& 0 <= j < deps.len()
    &&& deps[j].1 is None
    &&& forall|i: int| 0 <= i < j ==> (#[trigger] deps[i]).1 is Some
}

/// `name` is the name of the table's first entry whose version is not text.
pub open spec fn first_invalid_is(deps: Seq<(Seq<char>, Option<Seq<char>>)>, name: Seq<char>) -> bool {
    exists|j: int| #[trigger] first_non_text(deps, j) && name == deps[j].0
}

/// The store has room for the package's root, its leaves and their edges.
pub open spec fn has_room(g: GraphView, p: PackageView) -> bool {
    &&& g.nodes.len() + 1 + p.dependencies.len() <= MAX_ITEMS
    &&& g.edges.len() + p.dependencies.len() <= MAX_ITEMS
}

/// The leaf node of a dependency entry whose version is text.
pub open spec fn leaf_node(d: (Seq<char>, Option<Seq<char>>)) -> (Seq<char>, Seq<char>) {
    (d.0, d.1.unwrap())
}

/// The leaf nodes of a dependency table, in table order.
pub open spec fn leaf_nodes(deps: Seq<(Seq<char>, Option<Seq<char>>)>) -> Seq<(Seq<char>, Seq<char>)> {
    deps.map_values(|d: (Seq<char>, Option<Seq<char>>)| leaf_node(d))
}

/// The nodes that a sequence of packages would make, each seen as its name
/// and version.
pub open spec fn package_nodes(ps: Seq<Package>) -> Seq<(Seq<char>, Seq<char>)> {
    ps.map_values(|q: Package| (q@.name, q@.version))
}

/// The edges from a root to `k` leaves that follow it.
pub open spec fn root_edges(root: nat, k: nat) -> Seq<(nat, nat, Seq<char>)> {
    Seq::new(k, |i: int| (root, (root + 1 + i) as nat, dependency_label()))
}

/// The graph after a manifest is added: its root gets the next index, then
/// each dependency, in table order, gets a leaf and an edge from the root.
/// The dev-dependency table plays no part.
pub open spec fn with_manifest(g: GraphView, p: PackageView) -> GraphView {
    let root = g.nodes.len();
    GraphView {
        nodes: g.nodes.push((p.name, p.version)) + leaf_nodes(p.dependencies),
        edges: g.edges + root_edges(root, p.dependencies.len()),
    }
}

/// The graph made by adding the manifests in order to an empty graph.
pub open spec fn build(ps: Seq<PackageView>) -> GraphView
    decreases ps.len(),
{
    if ps.len() == 0 {
        empty_graph()
    } else {
        with_manifest(build(ps.drop_last()), ps.last())
    }
}

/// A manifest added to an empty graph makes one root and a node per
/// dependency, and one edge per dependency, labelled `dependency` and leading
/// from the root to that dependency's node.
pub proof fn lemma_single_manifest(p: PackageView)
    ensures
        with_manifest(empty_graph(), p).nodes.len() == 1 + p.dependencies.len(),
        with_manifest(empty_graph(), p).edges.len() == p.dependencies.len(),
        with_manifest(empty_graph(), p).nodes[0] == (p.name, p.version),
        forall|i: int| 0 <= i < p.dependencies.len() ==> {
            &&& #[trigger] with_manifest(empty_graph(), p).edges[i] == (0nat, (1 + i) as nat, dependency_label())
            &&& with_manifest(empty_graph(), p).nodes[1 + i] == leaf_node(p.dependencies[i])
        },
{
    let g = with_manifest(empty_graph(), p);
    assert forall|i: int| 0 <= i < p.dependencies.len() implies {
        &&& #[trigger] g.edges[i] == (0nat, (1 + i) as nat, dependency_label())
        &&& g.nodes[1 + i] == leaf_node(p.dependencies[i])
    } by {
        assert(g.edges[i] == root_edges(0, p.dependencies.len())[i]);
        assert(g.nodes[1 + i] == leaf_nodes(p.dependencies)[i]);
    }
}

/// The dev-dependency table has no part in the graph: two manifests that
/// differ in it alone add the same nodes and edges.
pub proof fn lemma_dev_dependencies_ignored(g: GraphView, p: PackageView, q: PackageView)
    requires
        p.name == q.name,
        p.version == q.version,
        p.dependencies == q.dependencies,
    ensures
        with_manifest(g, p) == with_manifest(g, q),
        has_room(g, p) == has_room(g, q),
        with_manifest(g, p).nodes.len() == g.nodes.len() + 1 + p.dependencies.len(),
        with_manifest(g, p).edges.len() == g.edges.len() + p.dependencies.len(),
{
}

/// Adding a manifest keeps every node and edge where it was: the root takes
/// the next index, and dependency `i` the one `i + 1` after it.
pub proof fn lemma_indices_stable(g: GraphView, p: PackageView)
    ensures
        with_manifest(g, p).nodes.subrange(0, g.nodes.len() as int) == g.nodes,
        with_manifest(g, p).edges.subrange(0, g.edges.len() as int) == g.edges,
        with_manifest(g, p).nodes[g.nodes.len() as int] == (p.name, p.version),
        forall|i: int| 0 <= i < p.dependencies.len() ==>
            #[trigger] with_manifest(g, p).nodes[g.nodes.len() + 1 + i] == leaf_node(p.dependencies[i]),
{
    let h = with_manifest(g, p);
    assert(h.nodes.subrange(0, g.nodes.len() as int) =~= g.nodes);
    assert(h.edges.subrange(0, g.edges.len() as int) =~= g.edges);
    assert forall|i: int| 0 <= i < p.dependencies.len() implies
        #[trigger] h.nodes[g.nodes.len() + 1 + i] == leaf_node(p.dependencies[i]) by {
        assert(h.nodes[g.nodes.len() + 1 + i] == leaf_nodes(p.dependencies)[i]);
    }
}

/// Over a run of manifests, node identities follow insertion order: the graph
/// of the first `i` manifests is a prefix of the graph of all of them, and
/// the root of manifest `i` takes the index right after it.
pub proof fn lemma_run_indices(ps: Seq<PackageView>, i: int)
    requires
        0 <= i < ps.len(),
    ensures
        build(ps).nodes.subrange(0, build(ps.take(i)).nodes.len() as int) == build(ps.take(i)).nodes,
        build(ps).edges.subrange(0, build(ps.take(i)).edges.len() as int) == build(ps.take(i)).edges,
        build(ps).nodes[build(ps.take(i)).nodes.len() as int] == (ps[i].name, ps[i].version),
    decreases ps.len(),
{
    let prev = ps.drop_last();
    lemma_indices_stable(build(prev), ps.last());
    if i == ps.len() - 1 {
        assert(ps.take(i) =~= prev);
    } else {
        assert(ps.take(i) =~= prev.take(i));
        lemma_run_indices(prev, i);
        let a = build(prev);
        let b = build(ps);
        let c = build(prev.take(i));
        lemma_build_prefix_len(prev, i);
        assert(b.nodes.subrange(0, a.nodes.len() as int) == a.nodes);
        assert(b.edges.subrange(0, a.edges.len() as int) == a.edges);
        assert(b.nodes.subrange(0, c.nodes.len() as int) =~= a.nodes.subrange(0, c.nodes.len() as int));
        assert(b.edges.subrange(0, c.edges.len() as int) =~= a.edges.subrange(0, c.edges.len() as int));
    }
}

proof fn lemma_build_prefix_len(ps: Seq<PackageView>, i: int)
    requires
        0 <= i < ps.len(),
    ensures
        build(ps.take(i)).nodes.len() < build(ps).nodes.len(),
        build(ps.take(i)).edges.len() <= build(ps).edges.len(),
    decreases ps.len(),
{
    let prev = ps.drop_last();
    if i == ps.len() - 1 {
        assert(ps.take(i) =~= prev);
    } else {
        assert(ps.take(i) =~= prev.take(i));
        lemma_build_prefix_len(prev, i);
    }
}

/// Why a manifest could not be added to the graph.
pub enum BuildError {
    /// The named dependency declares a version that is not text.
    InvalidDependencyVersion(String),
    /// The graph has no room left for the manifest's nodes or edges.
    CapacityExceeded,
}

/// A dependency graph, built by adding manifests one at a time.
pub struct DepGraph {
    store: PackageGraph,
}

impl View for DepGraph {
    type V = GraphView;

    closed spec fn view(&self) -> GraphView {
        GraphView { nodes: graph_nodes(self.store), edges: graph_edges(self.store) }
    }
}

impl DepGraph {
    /// The graph fits its store and every edge joins two of its nodes.
    pub open spec fn well_formed(&self) -> bool {
        graph_well_formed(self@)
    }

    /// An empty graph.
    pub fn new() -> (r: DepGraph)
        ensures
            r@ == empty_graph(),
            r.well_formed(),
    {
        let r = DepGraph { store: store_new() };
        assert(r@.nodes =~= empty_graph().nodes);
        assert(r@.edges =~= empty_graph().edges);
        r
    }

    /// The number of nodes.
    pub fn node_count(&self) -> (r: usize)
        ensures
            r == self@.nodes.len(),
    {
        store_node_count(&self.store)
    }

    /// The number of edges.
    pub fn edge_count(&self) -> (r: usize)
        ensures
            r == self@.edges.len(),
    {
        store_edge_count(&self.store)
    }

    /// The name and version of node `i`.
    pub fn node(&self, i: usize) -> (r: (&String, &String))
        requires
            self.well_formed(),
            i < self@.nodes.len(),
        ensures
            (r.0@, r.1@) == self@.nodes[i as int],
    {
        let p = store_node_weight(&self.store, i).unwrap();
        (&p.name, &p.version)
    }

    /// The source, target and label of edge `i`.
    pub fn edge(&self, i: usize) -> (r: (usize, usize, &'static str))
        requires
            self.well_formed(),
            i < self@.edges.len(),
        ensures
            (r.0 as nat, r.1 as nat, r.2@) == self@.edges[i as int],
    {
        let ends = store_edge_endpoints(&self.store, i).unwrap();
        let label = store_edge_weight(&self.store, i).unwrap();
        (ends.0, ends.1, label)
    }
}

impl Package {
    /// Adds this manifest to the graph: a root node for the package, then for
    /// each dependency, in table order, a leaf node with the dependency's name
    /// and version and an edge labelled `dependency` from the root to it.
    /// Returns the root's index. On failure the graph is left as it was.
    pub fn graph_deps(self, graph: &mut DepGraph) -> (r: Result<usize, BuildError>)
        requires
            old(graph).well_formed(),
        ensures
            final(graph).well_formed(),
            match r {
                Ok(root) => {
                    &&& all_text(self@.dependencies)
                    &&& has_room(old(graph)@, self@)
                    &&& root == old(graph)@.nodes.len()
                    &&& final(graph)@ == with_manifest(old(graph)@, self@)
                },
                Err(BuildError::InvalidDependencyVersion(name)) => {
                    &&& first_invalid_is(self@.dependencies, name@)
                    &&& final(graph)@ == old(graph)@
                },
                Err(BuildError::CapacityExceeded) => {
                    &&& all_text(self@.dependencies)
                    &&& !has_room(old(graph)@, self@)
                    &&& final(graph)@ == old(graph)@
                },
            },
    {
        let ghost p = self@;
        let ghost g0 = graph@;
        let Package { name, version, dependencies, dev_dependencies } = self;
        let mut leaves: Vec<Package> = Vec::new();
        let mut i: usize = 0;
        while i < dependencies.len()
            invariant
                i <= dependencies.len(),
                p.dependencies == crate::manifest::entries_view(dependencies@),
                leaves@.len() == i,
                p == self@,
                graph@ == g0,
                graph_well_formed(g0),
                leaves@.len() == i,
                forall|k: int| 0 <= k < i ==> (#[trigger] p.dependencies[k]).1 is Some,
                package_nodes(leaves@) == leaf_nodes(p.dependencies.take(
                    i as int,
                )),
            decreases dependencies.len() - i,
        {
            let entry = &dependencies[i];
            match entry.1.as_text() {
                Some(text) => {
                    let leaf = Package::new_with_data(entry.0.as_str(), text.as_str());
                    let ghost prev = leaves@;
                    assert(p.dependencies[i as int] == crate::manifest::entry_view(dependencies@[i as int]));
                    assert((leaf@.name, leaf@.version) == leaf_node(p.dependencies[i as int]));
                    leaves.push(leaf);
                    proof {
                        assert(leaves@ == prev.push(leaf));
                        assert forall|x: int| 0 <= x < i + 1 implies #[trigger] package_nodes(leaves@)[x]
                            == leaf_nodes(p.dependencies.take(i + 1))[x] by {
                            if x < i {
                                assert(package_nodes(prev)[x] == leaf_nodes(p.dependencies.take(i as int))[x]);
                            }
                        }
                        assert(p.dependencies.take(i + 1) =~= p.dependencies.take(i as int).push(
                            p.dependencies[i as int],
                        ));
                        assert(package_nodes(leaves@) =~= leaf_nodes(p.dependencies.take(
                            i + 1,
                        )));
                    }
                },
                None => {
                    let bad = entry.0.clone();
                    assert(p.dependencies[i as int] == crate::manifest::entry_view(dependencies@[i as int]));
                    assert(bad@ == p.dependencies[i as int].0);
                    assert(first_non_text(p.dependencies, i as int));
                    assert(first_invalid_is(p.dependencies, bad@));
                    return Err(BuildError::InvalidDependencyVersion(bad));
                },
            }
            i = i + 1;
        }
        let n = store_node_count(&graph.store);
        let e = store_edge_count(&graph.store);
        let k = dependencies.len();
        if !(n < MAX_ITEMS && k <= MAX_ITEMS - 1 - n && k <= MAX_ITEMS - e) {
            return Err(BuildError::CapacityExceeded);
        }
        let root_package = Package { name, version, dependencies, dev_dependencies };
        assert(root_package@ == p);
        proof {
            assert(p.dependencies.take(k as int) =~= p.dependencies);
            assert(p.dependencies.skip(0) =~= p.dependencies);
        }
        let root = store_add_node(&mut graph.store, root_package);
        let ghost g1 = graph@;
        let mut j: usize = 0;
        while j < k
            invariant
                j <= k,
                k == p.dependencies.len(),
                leaves@.len() == k - j,
                package_nodes(leaves@) == leaf_nodes(p.dependencies.skip(
                    j as int,
                )),
                root == g0.nodes.len(),
                g0.nodes.len() + 1 + k <= MAX_ITEMS,
                g0.edges.len() + k <= MAX_ITEMS,
                graph@.nodes == g0.nodes.push((p.name, p.version)) + leaf_nodes(p.dependencies.take(
                    j as int,
                )),
                graph@.edges == g0.edges + root_edges(root as nat, j as nat),
                graph_well_formed(g0),
            decreases k - j,
        {
            let ghost prev = leaves@;
            assert(package_nodes(prev)[0] == leaf_node(p.dependencies[j as int]));
            let leaf = leaves.remove(0);
            let id = store_add_node(&mut graph.store, leaf);
            store_add_edge(&mut graph.store, root, id, "dependency");
            proof {
                assert(p.dependencies.take(j + 1) =~= p.dependencies.take(j as int).push(
                    p.dependencies[j as int],
                ));
                assert(leaves@ =~= prev.subrange(1, prev.len() as int));
                assert forall|x: int| 0 <= x < k - j - 1 implies #[trigger] package_nodes(leaves@)[x]
                    == leaf_nodes(p.dependencies.skip(j + 1))[x] by {
                    assert(package_nodes(prev)[x + 1] == leaf_nodes(p.dependencies.skip(j as int))[x + 1]);
                }
                assert(package_nodes(leaves@) =~= leaf_nodes(p.dependencies.skip(
                    j + 1,
                )));
                assert(leaf_nodes(p.dependencies.take(j + 1)) =~= leaf_nodes(p.dependencies.take(j as int)).push(leaf_node(p.dependencies[j as int])));
                assert(graph@.nodes =~= g0.nodes.push((p.name, p.version)) + leaf_nodes(p.dependencies.take(
                    j + 1,
                )));
                assert(graph@.edges =~= g0.edges + root_edges(root as nat, (j + 1) as nat));
            }
            j = j + 1;
        }
        proof {
            assert(p.dependencies.take(k as int) =~= p.dependencies);
            assert(graph@.nodes =~= with_manifest(g0, p).nodes);
            assert(graph@.edges =~= with_manifest(g0, p).edges);
            assert forall|m: int| 0 <= m < graph@.edges.len() implies {
                &&& #[trigger] graph@.edges[m].0 < graph@.nodes.len()
                &&& graph@.edges[m].1 < graph@.nodes.len()
            } by {
                if m >= g0.edges.len() {
                    assert(graph@.edges[m] == root_edges(root as nat, k as nat)[m - g0.edges.len()]);
                }
            }
        }
        Ok(root)
    }
}

} // verus!
