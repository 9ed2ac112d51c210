//! The dependency graph of the packages of a workspace.
//!
//! Packages are numbered. A dependency is normal where it is neither a build
//! nor a development dependency and is not bound to a target platform. The
//! graph of a package holds the packages that it reaches over normal
//! dependencies, each with the edge over which it was first reached.

use vstd::prelude::*;
use vstd::set_lib::lemma_len_subset;
use petgraph::graphmap::GraphMap;
use petgraph::Directed;
use std::collections::hash_map::RandomState;

verus! {

/// A graph of `petgraph` whose nodes are the values of `N`.
#[verifier::external_type_specification]
#[verifier::external_body]
#[verifier::reject_recursive_types(N)]
#[verifier::reject_recursive_types(E)]
#[verifier::reject_recursive_types(Ty)]
#[verifier::reject_recursive_types(S)]
pub struct ExGraphMap<N, E, Ty, S: std::hash::BuildHasher>(GraphMap<N, E, Ty, S>);

/// The marker of `petgraph` for graphs with directed edges.
#[verifier::external_type_specification]
#[verifier::external_body]
pub struct ExDirected(Directed);

/// A directed graph over package numbers.
pub type PackageGraph = GraphMap<usize, (), Directed, RandomState>;

/// The nodes of a graph.
pub uninterp spec fn graph_nodes(graph: PackageGraph) -> Set<usize>;

/// The edges of a graph, each from its first to its second node.
pub uninterp spec fn graph_edges(graph: PackageGraph) -> Set<(usize, usize)>;

/// Calls `GraphMap::new`, which makes a graph without nodes and edges.
#[verifier::external_body]
fn graph_new() -> (graph: PackageGraph)
    ensures
        graph_nodes(graph) == Set::<usize>::empty(),
        graph_edges(graph) == Set::<(usize, usize)>::empty(),
{
    GraphMap::new()
}

/// Calls `GraphMap::contains_node`, which tells whether the node is in the
/// graph.
#[verifier::external_body]
fn graph_contains_node(graph: &PackageGraph, node: usize) -> (found: bool)
    ensures
        found == graph_nodes(*graph).contains(node),
{
    graph.contains_node(node)
}

/// Calls `GraphMap::add_edge`, which adds the edge from `a` to `b`, and both
/// nodes where they are not in the graph yet.
#[verifier::external_body]
fn graph_add_edge(graph: &mut PackageGraph, a: usize, b: usize)
    ensures
        graph_nodes(*final(graph)) == graph_nodes(*old(graph)).insert(a).insert(b),
        graph_edges(*final(graph)) == graph_edges(*old(graph)).insert((a, b)),
{
    graph.add_edge(a, b, ());
}

/// Calls `GraphMap::remove_node`, which takes the node out of the graph with
/// every edge from it and to it, and tells whether the node was there.
#[verifier::external_body]
fn graph_remove_node(graph: &mut PackageGraph, node: usize) -> (removed: bool)
    ensures
        removed == graph_nodes(*old(graph)).contains(node),
        graph_nodes(*final(graph)) == graph_nodes(*old(graph)).remove(node),
        graph_edges(*final(graph)) == graph_edges(*old(graph)).filter(
            |e: (usize, usize)| e.0 != node && e.1 != node,
        ),
{
    graph.remove_node(node)
}

/// Calls `GraphMap::node_count`, which counts the nodes of the graph. A
/// graph without nodes has no edges.
#[verifier::external_body]
fn graph_node_count(graph: &PackageGraph) -> (count: usize)
    ensures
        count == graph_nodes(*graph).len(),
        count == 0 ==> graph_edges(*graph) == Set::<(usize, usize)>::empty(),
{
    graph.node_count()
}

/// The step of `path` that starts at position `i`.
pub open spec fn step(path: Seq<usize>, i: int) -> (usize, usize) {
    (path[i], path[i + 1])
}

/// Whether `path` leads from `from` to `to` over edges, through no node
/// twice.
#[verifier::opaque]
pub open spec fn is_simple_path(
    edges: Set<(usize, usize)>,
    from: usize,
    to: usize,
    path: Seq<usize>,
) -> bool {
    &&& path.len() >= 2
    &&& path.first() == from
    &&& path.last() == to
    &&& forall|i: int| 0 <= i < path.len() - 1 ==> edges.contains(#[trigger] step(path, i))
    &&& forall|i: int, j: int| 0 <= i < j < path.len() ==> path[i] != path[j]
}

/// Calls `petgraph::algo::all_simple_paths` without bounds on the length,
/// which walks every path from `from` that passes no node twice and yields
/// each one that ends in `to`. It is not called on a graph without nodes,
/// where it would subtract from zero, nor from a node to itself.
#[verifier::external_body]
fn graph_simple_paths(graph: &PackageGraph, from: usize, to: usize) -> (paths: Vec<Vec<usize>>)
    requires
        from != to,
        graph_nodes(*graph).len() > 0,
    ensures
        forall|k: int|
            0 <= k < paths@.len() ==> is_simple_path(
                graph_edges(*graph),
                from,
                to,
                (#[trigger] paths@[k])@,
            ),
        forall|path: Seq<usize>| #[trigger]
            is_simple_path(graph_edges(*graph), from, to, path) ==> exists|k: int|
                0 <= k < paths@.len() && (#[trigger] paths@[k])@ == path,
{
    petgraph::algo::all_simple_paths::<Vec<usize>, &PackageGraph>(graph, from, to, 0, None).collect()
}

/// What a dependency is needed for.
#[derive(Clone, Copy, Debug, PartialEq, Eq)]
pub enum DependencyKind {
    /// Needed to build and to run the package.
    Normal,
    /// Needed for the tests and examples of the package only.
    Development,
    /// Needed by the build script of the package only.
    Build,
    /// Of a kind that is not known.
    Unknown,
}

/// A dependency of a package.
#[derive(Clone, Copy, Debug, PartialEq, Eq)]
pub struct Dependency {
    /// The number of the package that is depended on.
    pub package: usize,
    /// What the dependency is needed for.
    pub kind: DependencyKind,
    /// Whether the dependency holds on some target platforms only.
    pub has_target: bool,
}

/// Whether a dependency is normal: of the normal kind and not bound to a
/// target platform.
pub open spec fn is_normal(dependency: Dependency) -> bool {
    dependency.kind is Normal && !dependency.has_target
}

/// The packages that the normal ones among `dependencies` lead to, in their
/// order.
pub open spec fn normal_targets(dependencies: Seq<Dependency>) -> Seq<usize>
    decreases dependencies.len(),
{
    if dependencies.len() == 0 {
        Seq::empty()
    } else if is_normal(dependencies.last()) {
        normal_targets(dependencies.drop_last()).push(dependencies.last().package)
    } else {
        normal_targets(dependencies.drop_last())
    }
}

/// The edges from `package` to each of `targets`.
pub open spec fn edges_from(package: usize, targets: Seq<usize>) -> Seq<(usize, usize)> {
    Seq::new(targets.len(), |i: int| (package, targets[i]))
}

/// The normal dependencies of `package`; none for a number that names no
/// package.
pub open spec fn targets_of(all: Seq<Seq<Dependency>>, package: usize) -> Seq<usize> {
    if package < all.len() {
        normal_targets(all[package as int])
    } else {
        Seq::empty()
    }
}

/// Whether `a` depends on `b` normally.
pub open spec fn normal_edge(all: Seq<Seq<Dependency>>, a: usize, b: usize) -> bool {
    targets_of(all, a).contains(b)
}

/// Whether `to` is reached from `from` over at least one and at most `steps`
/// normal dependencies.
pub open spec fn reaches_within(all: Seq<Seq<Dependency>>, from: usize, to: usize, steps: nat) -> bool
    decreases steps,
{
    steps > 0 && (normal_edge(all, from, to) || exists|via: usize|
        reaches_within(all, from, via, (steps - 1) as nat) && #[trigger] normal_edge(all, via, to))
}

/// Whether `to` is reached from `from` over normal dependencies, at least
/// one.
pub open spec fn reaches(all: Seq<Seq<Dependency>>, from: usize, to: usize) -> bool {
    exists|steps: nat| reaches_within(all, from, to, steps)
}

/// The dependency lists that the vectors hold.
pub open spec fn lists_of(dependencies: Seq<Vec<Dependency>>) -> Seq<Seq<Dependency>> {
    Seq::new(dependencies.len(), |i: int| dependencies[i]@)
}

/// Whether every dependency names a package.
pub open spec fn is_closed(all: Seq<Seq<Dependency>>) -> bool {
    forall|i: int, j: int|
        0 <= i < all.len() && 0 <= j < all[i].len() ==> (#[trigger] all[i][j]).package < all.len()
}

/// The packages of a workspace, each with its dependencies. Package `i` is
/// the one whose dependencies stand at `i`.
#[derive(Debug)]
pub struct Packages {
    dependencies: Vec<Vec<Dependency>>,
}

impl View for Packages {
    type V = Seq<Seq<Dependency>>;

    closed spec fn view(&self) -> Seq<Seq<Dependency>> {
        lists_of(self.dependencies@)
    }
}

proof fn lemma_targets_named(dependencies: Seq<Dependency>, bound: nat)
    requires
        forall|j: int| 0 <= j < dependencies.len() ==> (#[trigger] dependencies[j]).package < bound,
    ensures
        forall|k: int|
            0 <= k < normal_targets(dependencies).len() ==> (#[trigger] normal_targets(
                dependencies,
            )[k]) < bound,
    decreases dependencies.len(),
{
    if dependencies.len() > 0 {
        let rest = dependencies.drop_last();
        assert forall|j: int| 0 <= j < rest.len() implies (#[trigger] rest[j]).package < bound by {
            assert(rest[j] == dependencies[j]);
        }
        lemma_targets_named(rest, bound);
        let targets = normal_targets(dependencies);
        assert forall|k: int| 0 <= k < targets.len() implies (#[trigger] targets[k]) < bound by {
            if k < normal_targets(rest).len() {
                assert(targets[k] == normal_targets(rest)[k]);
            } else {
                assert(targets[k] == dependencies[dependencies.len() - 1].package);
            }
        }
    }
}

/// The numbers below `n`.
spec fn below(n: nat) -> Set<usize> {
    Set::new(|x: usize| x < n)
}

proof fn lemma_below(n: nat)
    requires
        n <= usize::MAX + 1,
    ensures
        below(n).finite(),
        below(n).len() == n,
    decreases n,
{
    if n == 0 {
        assert(below(n) =~= Set::<usize>::empty());
    } else {
        lemma_below((n - 1) as nat);
        assert(below(n) =~= below((n - 1) as nat).insert((n - 1) as usize));
    }
}

proof fn lemma_no_edge_no_reach(all: Seq<Seq<Dependency>>, from: usize, to: usize, steps: nat)
    requires
        targets_of(all, from).len() == 0,
    ensures
        !reaches_within(all, from, to, steps),
    decreases steps,
{
    if steps > 0 {
        let fewer = (steps - 1) as nat;
        assert(!normal_edge(all, from, to));
        assert forall|via: usize|
            !(reaches_within(all, from, via, fewer) && #[trigger] normal_edge(all, via, to)) by {
            lemma_no_edge_no_reach(all, from, via, fewer);
        }
    }
}

proof fn lemma_reach_step(all: Seq<Seq<Dependency>>, root: usize, from: usize, to: usize)
    requires
        from == root || reaches(all, root, from),
        normal_edge(all, from, to),
    ensures
        reaches(all, root, to),
{
    if from == root {
        assert(reaches_within(all, root, to, 1));
    } else {
        let steps = choose|steps: nat| reaches_within(all, root, from, steps);
        assert(reaches_within(all, root, to, steps + 1));
    }
}

proof fn lemma_closed_holds_reach(
    all: Seq<Seq<Dependency>>,
    nodes: Set<usize>,
    root: usize,
    to: usize,
    steps: nat,
)
    requires
        forall|a: usize, b: usize|
            (a == root || nodes.contains(a)) && #[trigger] normal_edge(all, a, b)
                ==> nodes.contains(b),
        reaches_within(all, root, to, steps),
    ensures
        nodes.contains(to),
    decreases steps,
{
    if !normal_edge(all, root, to) {
        let via = choose|via: usize|
            reaches_within(all, root, via, (steps - 1) as nat) && #[trigger] normal_edge(
                all,
                via,
                to,
            );
        lemma_closed_holds_reach(all, nodes, root, via, (steps - 1) as nat);
    }
}

impl Packages {
    #[verifier::type_invariant]
    spec fn well_formed(&self) -> bool {
        is_closed(lists_of(self.dependencies@))
    }

    /// The packages with the given dependencies; none where a dependency
    /// names no package.
    pub fn new(dependencies: Vec<Vec<Dependency>>) -> (res: Option<Packages>)
        ensures
            res matches Some(packages) ==> packages@ == lists_of(dependencies@) && is_closed(
                packages@,
            ),
            res is None ==> !is_closed(lists_of(dependencies@)),
    {
        let count = dependencies.len();
        let ghost all = lists_of(dependencies@);
        let mut i: usize = 0;
        while i < count
            invariant
                i <= count == dependencies@.len(),
                all == lists_of(dependencies@),
                forall|a: int, b: int|
                    0 <= a < i && 0 <= b < all[a].len() ==> (#[trigger] all[a][b]).package < count,
            decreases count - i,
        {
            let list = &dependencies[i];
            let mut j: usize = 0;
            while j < list.len()
                invariant
                    j <= list@.len(),
                    i < count == dependencies@.len(),
                    all == lists_of(dependencies@),
                    list@ == all[i as int],
                    forall|b: int| 0 <= b < j ==> (#[trigger] list@[b]).package < count,
                decreases list@.len() - j,
            {
                if list[j].package >= count {
                    assert(!(all[i as int][j as int].package < all.len()));
                    return None;
                }
                j = j + 1;
            }
            i = i + 1;
        }
        Some(Packages { dependencies })
    }

    /// How many packages there are.
    pub fn len(&self) -> (count: usize)
        ensures
            count == self@.len(),
    {
        self.dependencies.len()
    }

    /// The packages that `pkg` depends on normally, in the order of its
    /// dependencies; none for a number that names no package.
    pub fn normal_deps(&self, pkg: usize) -> (deps: Vec<usize>)
        ensures
            deps@ == targets_of(self@, pkg),
            forall|k: int| 0 <= k < deps@.len() ==> (#[trigger] deps@[k]) < self@.len(),
    {
        proof {
            use_type_invariant(self);
        }
        let mut deps: Vec<usize> = Vec::new();
        if pkg >= self.dependencies.len() {
            return deps;
        }
        let list = &self.dependencies[pkg];
        let mut j: usize = 0;
        while j < list.len()
            invariant
                j <= list@.len(),
                deps@ == normal_targets(list@.take(j as int)),
            decreases list@.len() - j,
        {
            let dependency = list[j];
            proof {
                assert(list@.take(j + 1).drop_last() =~= list@.take(j as int));
                assert(list@.take(j + 1).last() == dependency);
            }
            match dependency.kind {
                DependencyKind::Normal => {
                    if !dependency.has_target {
                        deps.push(dependency.package);
                    }
                },
                _ => {},
            }
            j = j + 1;
        }
        proof {
            assert(list@.take(j as int) =~= list@);
            assert(list@ == self@[pkg as int]);
            assert forall|b: int| 0 <= b < list@.len() implies (#[trigger] list@[b]).package
                < self@.len() by {
                assert(list@[b] == self@[pkg as int][b]);
            }
            lemma_targets_named(list@, self@.len());
        }
        deps
    }

    /// The edges from `pkg` to each package that it depends on normally.
    pub fn normal_edges(&self, pkg: usize) -> (edges: Vec<(usize, usize)>)
        ensures
            edges@ == edges_from(pkg, targets_of(self@, pkg)),
    {
        let deps = self.normal_deps(pkg);
        let mut edges: Vec<(usize, usize)> = Vec::new();
        let mut k: usize = 0;
        while k < deps.len()
            invariant
                k <= deps@.len(),
                edges@ == edges_from(pkg, deps@.take(k as int)),
            decreases deps@.len() - k,
        {
            edges.push((pkg, deps[k]));
            assert(edges@ =~= edges_from(pkg, deps@.take(k + 1)));
            k = k + 1;
        }
        assert(deps@.take(k as int) =~= deps@);
        edges
    }

    /// The graph of the packages that `root` reaches over normal
    /// dependencies. Every package that is reached is a node, and `root`
    /// itself where it has a normal dependency. Every edge is a normal
    /// dependency between nodes, and every node but `root` has an edge
    /// leading to it: the one over which it was first reached.
    pub fn graph(&self, root: usize) -> (graph: PackageGraph)
        ensures
            is_graph_of(self@, root, graph_nodes(graph), graph_edges(graph)),
    {
        proof {
            use_type_invariant(self);
        }
        let ghost all = self@;
        let count = self.len();
        let mut graph = graph_new();
        let mut stack = self.normal_edges(root);
        proof {
            lemma_traversal_starts(all, root);
        }
        while stack.len() > 0
            invariant
                all == self@,
                all.len() == count,
                is_closed(all),
                graph_nodes(graph).finite(),
                traversal(all, root, graph_nodes(graph), graph_edges(graph), stack@),
            decreases all.len() - graph_nodes(graph).len(), stack@.len(),
        {
            let ghost before = stack@;
            let ghost nodes = graph_nodes(graph);
            let ghost edges = graph_edges(graph);
            proof {
                lemma_below(all.len());
                assert(nodes.subset_of(below(all.len())));
                lemma_len_subset(nodes, below(all.len()));
            }
            let (from, to) = stack.pop().unwrap();
            assert(before.last() == (from, to));
            if !graph_contains_node(&graph, to) {
                graph_add_edge(&mut graph, from, to);
                let mut more = self.normal_edges(to);
                stack.append(&mut more);
                proof {
                    lemma_traversal_visits(all, root, nodes, edges, before);
                    assert(graph_nodes(graph).len() > nodes.len());
                    assert(graph_nodes(graph).subset_of(below(all.len())));
                    lemma_len_subset(graph_nodes(graph), below(all.len()));
                }
            } else {
                proof {
                    lemma_traversal_skips(all, root, nodes, edges, before);
                }
            }
        }
        proof {
            lemma_traversal_ends(all, root, graph_nodes(graph), graph_edges(graph));
        }
        graph
    }
}

/// What holds while the graph of `root` is built, with `stack` the edges
/// that are still to be looked at.
spec fn traversal(
    all: Seq<Seq<Dependency>>,
    root: usize,
    nodes: Set<usize>,
    edges: Set<(usize, usize)>,
    stack: Seq<(usize, usize)>,
) -> bool {
    &&& forall|n: usize| #[trigger] nodes.contains(n) ==> n < all.len()
    &&& forall|a: usize, b: usize| #[trigger]
        edges.contains((a, b)) ==> normal_edge(all, a, b) && nodes.contains(a) && nodes.contains(b)
    &&& forall|n: usize| #[trigger]
        nodes.contains(n) ==> reaches(all, root, n) || (n == root && targets_of(all, root).len()
            > 0)
    &&& forall|n: usize| #[trigger] nodes.contains(n) ==> nodes.contains(root)
    &&& forall|k: int|
        0 <= k < stack.len() ==> normal_edge(all, (#[trigger] stack[k]).0, stack[k].1) && (
        stack[k].0 == root || nodes.contains(stack[k].0))
    &&& forall|a: usize, b: usize|
        (a == root || nodes.contains(a)) && #[trigger] normal_edge(all, a, b) ==> nodes.contains(b)
            || stack.contains((a, b))
    &&& forall|n: usize|
        nodes.contains(n) && n != root ==> exists|a: usize| #[trigger] edges.contains((a, n))
    &&& targets_of(all, root).len() > 0 ==> nodes.contains(root) || stack.len() > 0
}

proof fn lemma_traversal_starts(all: Seq<Seq<Dependency>>, root: usize)
    ensures
        traversal(
            all,
            root,
            Set::<usize>::empty(),
            Set::<(usize, usize)>::empty(),
            edges_from(root, targets_of(all, root)),
        ),
{
    let stack = edges_from(root, targets_of(all, root));
    assert forall|k: int| 0 <= k < stack.len() implies normal_edge(
        all,
        (#[trigger] stack[k]).0,
        stack[k].1,
    ) && stack[k].0 == root by {
        assert(targets_of(all, root)[k] == stack[k].1);
    }
    assert forall|a: usize, b: usize| a == root && #[trigger] normal_edge(all, a, b) implies stack.contains(
        (a, b),
    ) by {
        lemma_edges_listed(all, a, b);
    }
}

proof fn lemma_traversal_visits(
    all: Seq<Seq<Dependency>>,
    root: usize,
    nodes: Set<usize>,
    edges: Set<(usize, usize)>,
    before: Seq<(usize, usize)>,
)
    requires
        is_closed(all),
        nodes.finite(),
        traversal(all, root, nodes, edges, before),
        before.len() > 0,
        !nodes.contains(before.last().1),
    ensures
        traversal(
            all,
            root,
            nodes.insert(before.last().0).insert(before.last().1),
            edges.insert(before.last()),
            before.drop_last() + edges_from(before.last().1, targets_of(all, before.last().1)),
        ),
        nodes.insert(before.last().0).insert(before.last().1).len() > nodes.len(),
{
    let from = before.last().0;
    let to = before.last().1;
    let popped = before.drop_last();
    let listed = edges_from(to, targets_of(all, to));
    let stack = popped + listed;
    let grown = nodes.insert(from).insert(to);
    let more = edges.insert((from, to));
    assert(before[before.len() - 1] == (from, to));
    assert(normal_edge(all, from, to) && (from == root || nodes.contains(from)));
    lemma_edge_target_named(all, from, to);
    lemma_reach_step(all, root, from, to);
    assert forall|k: int| 0 <= k < stack.len() implies normal_edge(
        all,
        (#[trigger] stack[k]).0,
        stack[k].1,
    ) && (stack[k].0 == root || grown.contains(stack[k].0)) by {
        if k < popped.len() {
            assert(stack[k] == before[k]);
        } else {
            let i = k - popped.len();
            assert(stack[k] == listed[i]);
            assert(targets_of(all, to)[i] == listed[i].1);
        }
    }
    assert forall|a: usize, b: usize|
        (a == root || grown.contains(a)) && #[trigger] normal_edge(all, a, b) implies grown.contains(
        b,
    ) || stack.contains((a, b)) by {
        if a == to {
            lemma_edges_listed(all, a, b);
            let i = choose|i: int| 0 <= i < listed.len() && listed[i] == (a, b);
            assert(stack[popped.len() + i] == (a, b));
        } else if !nodes.contains(b) && (a, b) != (from, to) {
            assert(before.contains((a, b)));
            let i = choose|i: int| 0 <= i < before.len() && before[i] == (a, b);
            assert(stack[i] == (a, b));
        }
    }
    assert forall|n: usize| grown.contains(n) && n != root implies exists|a: usize| #[trigger]
        more.contains((a, n)) by {
        if n == to {
            assert(more.contains((from, to)));
        } else {
            assert(nodes.contains(n));
            let a = choose|a: usize| #[trigger] edges.contains((a, n));
            assert(more.contains((a, n)));
        }
    }
    assert forall|a: usize, b: usize| #[trigger] more.contains((a, b)) implies normal_edge(
        all,
        a,
        b,
    ) && grown.contains(a) && grown.contains(b) by {
        if (a, b) != (from, to) {
            assert(edges.contains((a, b)));
        }
    }
    assert(grown.len() > nodes.len()) by {
        if from == to {
            assert(grown =~= nodes.insert(to));
        }
    }
}

proof fn lemma_traversal_skips(
    all: Seq<Seq<Dependency>>,
    root: usize,
    nodes: Set<usize>,
    edges: Set<(usize, usize)>,
    before: Seq<(usize, usize)>,
)
    requires
        traversal(all, root, nodes, edges, before),
        before.len() > 0,
        nodes.contains(before.last().1),
    ensures
        traversal(all, root, nodes, edges, before.drop_last()),
{
    let stack = before.drop_last();
    assert forall|k: int| 0 <= k < stack.len() implies normal_edge(
        all,
        (#[trigger] stack[k]).0,
        stack[k].1,
    ) && (stack[k].0 == root || nodes.contains(stack[k].0)) by {
        assert(stack[k] == before[k]);
    }
    assert forall|a: usize, b: usize|
        (a == root || nodes.contains(a)) && #[trigger] normal_edge(all, a, b) implies nodes.contains(
        b,
    ) || stack.contains((a, b)) by {
        if !nodes.contains(b) {
            assert(before.contains((a, b)));
            let i = choose|i: int| 0 <= i < before.len() && before[i] == (a, b);
            assert(stack[i] == (a, b));
        }
    }
}

proof fn lemma_traversal_ends(
    all: Seq<Seq<Dependency>>,
    root: usize,
    nodes: Set<usize>,
    edges: Set<(usize, usize)>,
)
    requires
        nodes.finite(),
        traversal(all, root, nodes, edges, Seq::<(usize, usize)>::empty()),
    ensures
        is_graph_of(all, root, nodes, edges),
{
    let stack = Seq::<(usize, usize)>::empty();
    assert forall|a: usize, b: usize|
        (a == root || nodes.contains(a)) && #[trigger] normal_edge(all, a, b) implies nodes.contains(
        b,
    ) by {
        assert(!stack.contains((a, b)));
    }
    assert forall|n: usize| reaches(all, root, n) implies nodes.contains(n) by {
        let steps = choose|steps: nat| reaches_within(all, root, n, steps);
        lemma_closed_holds_reach(all, nodes, root, n, steps);
    }
}

/// Whether `nodes` and `edges` are those of a graph of what `root` reaches:
/// the nodes are the packages that `root` reaches over normal dependencies,
/// and `root` itself where it has one; every edge is a normal dependency
/// between nodes; and every node but `root` has an edge leading to it.
pub open spec fn is_graph_of(
    all: Seq<Seq<Dependency>>,
    root: usize,
    nodes: Set<usize>,
    edges: Set<(usize, usize)>,
) -> bool {
    &&& nodes.finite()
    &&& forall|a: usize, b: usize| #[trigger]
        edges.contains((a, b)) ==> normal_edge(all, a, b) && nodes.contains(a) && nodes.contains(b)
    &&& forall|n: usize| #[trigger]
        nodes.contains(n) <==> reaches(all, root, n) || (n == root && targets_of(all, root).len()
            > 0)
    &&& forall|n: usize|
        nodes.contains(n) && n != root ==> exists|a: usize| #[trigger] edges.contains((a, n))
}

proof fn lemma_edges_listed(all: Seq<Seq<Dependency>>, a: usize, b: usize)
    requires
        normal_edge(all, a, b),
    ensures
        edges_from(a, targets_of(all, a)).contains((a, b)),
{
    let targets = targets_of(all, a);
    let i = choose|i: int| 0 <= i < targets.len() && targets[i] == b;
    assert(edges_from(a, targets)[i] == (a, b));
}

proof fn lemma_edge_target_named(all: Seq<Seq<Dependency>>, a: usize, b: usize)
    requires
        is_closed(all),
        normal_edge(all, a, b),
    ensures
        a < all.len(),
        b < all.len(),
{
    let list = all[a as int];
    assert forall|j: int| 0 <= j < list.len() implies (#[trigger] list[j]).package < all.len() by {
        assert(list[j] == all[a as int][j]);
    }
    lemma_targets_named(list, all.len());
    let targets = targets_of(all, a);
    let i = choose|i: int| 0 <= i < targets.len() && targets[i] == b;
    assert(targets[i] < all.len());
}

/// Whether `path` leads from one of `roots` to one of `protected` over
/// normal dependencies, through no package twice and through none of
/// `hidden`.
#[verifier::opaque]
pub open spec fn is_breach(
    all: Seq<Seq<Dependency>>,
    roots: Seq<usize>,
    protected: Seq<usize>,
    hidden: Seq<usize>,
    path: Seq<usize>,
) -> bool {
    &&& path.len() >= 2
    &&& roots.contains(path.first())
    &&& protected.contains(path.last())
    &&& forall|i: int|
        0 <= i < path.len() - 1 ==> normal_edge(all, (#[trigger] step(path, i)).0, step(path, i).1)
    &&& forall|i: int, j: int| 0 <= i < j < path.len() ==> path[i] != path[j]
    &&& forall|i: int| 0 <= i < path.len() ==> !hidden.contains(#[trigger] path[i])
}

/// Those of `targets` that are not among `exempt`, each once, in the order
/// of their first occurrence.
pub open spec fn kept(targets: Seq<usize>, exempt: Seq<usize>) -> Seq<usize>
    decreases targets.len(),
{
    if targets.len() == 0 {
        Seq::empty()
    } else {
        let before = kept(targets.drop_last(), exempt);
        if !exempt.contains(targets.last()) && !before.contains(targets.last()) {
            before.push(targets.last())
        } else {
            before
        }
    }
}

proof fn lemma_kept(targets: Seq<usize>, exempt: Seq<usize>)
    ensures
        forall|p: usize| #[trigger]
            kept(targets, exempt).contains(p) <==> targets.contains(p) && !exempt.contains(p),
        forall|i: int, j: int|
            0 <= i < j < kept(targets, exempt).len() ==> kept(targets, exempt)[i] != kept(
                targets,
                exempt,
            )[j],
    decreases targets.len(),
{
    if targets.len() > 0 {
        let rest = targets.drop_last();
        let last = targets.last();
        let before = kept(rest, exempt);
        let all = kept(targets, exempt);
        lemma_kept(rest, exempt);
        assert forall|p: usize| #[trigger]
            all.contains(p) <==> targets.contains(p) && !exempt.contains(p) by {
            assert(before.contains(p) <==> rest.contains(p) && !exempt.contains(p));
            if all.contains(p) {
                let k = choose|k: int| 0 <= k < all.len() && all[k] == p;
                if k < before.len() {
                    assert(before[k] == p);
                    assert(before.contains(p));
                    let m = choose|m: int| 0 <= m < rest.len() && rest[m] == p;
                    assert(targets[m] == p);
                } else {
                    assert(targets[targets.len() - 1] == p);
                }
            }
            if targets.contains(p) && !exempt.contains(p) {
                let m = choose|m: int| 0 <= m < targets.len() && targets[m] == p;
                if m < rest.len() {
                    assert(rest[m] == p);
                    assert(before.contains(p));
                    let k = choose|k: int| 0 <= k < before.len() && before[k] == p;
                    assert(all[k] == p);
                } else if before.contains(p) {
                    let k = choose|k: int| 0 <= k < before.len() && before[k] == p;
                    assert(all[k] == p);
                } else {
                    assert(all[before.len() as int] == p);
                }
            }
        }
        assert forall|i: int, j: int| 0 <= i < j < all.len() implies all[i] != all[j] by {
            if j == before.len() {
                assert(before[i] == all[i]);
                assert(before.contains(all[i]));
            }
        }
    }
}

/// Whether `value` is among `values`.
fn is_among(values: &Vec<usize>, value: usize) -> (found: bool)
    ensures
        found == values@.contains(value),
{
    let mut i: usize = 0;
    while i < values.len()
        invariant
            i <= values@.len(),
            forall|j: int| 0 <= j < i ==> values@[j] != value,
        decreases values@.len() - i,
    {
        if values[i] == value {
            return true;
        }
        i = i + 1;
    }
    false
}

/// Whether `path` is a simple path from `root` to one of `targets`.
pub open spec fn leads_to_some(
    edges: Set<(usize, usize)>,
    root: usize,
    targets: Seq<usize>,
    path: Seq<usize>,
) -> bool {
    exists|t: int| 0 <= t < targets.len() && is_simple_path(edges, root, #[trigger] targets[t], path)
}

/// Whether `path` is the path that one of `paths` holds.
pub open spec fn is_listed(paths: Seq<Vec<usize>>, path: Seq<usize>) -> bool {
    exists|k: int| 0 <= k < paths.len() && (#[trigger] paths[k])@ == path
}

/// The simple paths of `graph` from `root` to each of `targets`: every such
/// path, and nothing else.
pub fn paths_to(graph: &PackageGraph, root: usize, targets: &Vec<usize>) -> (paths: Vec<Vec<usize>>)
    ensures
        forall|k: int|
            0 <= k < paths@.len() ==> leads_to_some(
                graph_edges(*graph),
                root,
                targets@,
                (#[trigger] paths@[k])@,
            ),
        forall|path: Seq<usize>| #[trigger]
            leads_to_some(graph_edges(*graph), root, targets@, path) ==> is_listed(paths@, path),
{
    let mut paths: Vec<Vec<usize>> = Vec::new();
    if graph_node_count(graph) == 0 {
        assert forall|path: Seq<usize>| #[trigger]
            leads_to_some(graph_edges(*graph), root, targets@, path) implies false by {
            reveal(is_simple_path);
            assert(graph_edges(*graph).contains(step(path, 0)));
        }
        return paths;
    }
    let mut i: usize = 0;
    while i < targets.len()
        invariant
            i <= targets@.len(),
            graph_nodes(*graph).len() > 0,
            forall|k: int|
                0 <= k < paths@.len() ==> leads_to_some(
                    graph_edges(*graph),
                    root,
                    targets@.take(i as int),
                    (#[trigger] paths@[k])@,
                ),
            forall|path: Seq<usize>| #[trigger]
                leads_to_some(graph_edges(*graph), root, targets@.take(i as int), path)
                    ==> is_listed(paths@, path),
        decreases targets@.len() - i,
    {
        let target = targets[i];
        let ghost before = paths@;
        let ghost seen = targets@.take(i as int);
        let ghost now = targets@.take(i + 1);
        let ghost edges = graph_edges(*graph);
        let mut found: Vec<Vec<usize>> = Vec::new();
        if target != root {
            found = graph_simple_paths(graph, root, target);
        } else {
            proof {
                assert forall|path: Seq<usize>| !is_simple_path(edges, root, target, path) by {
                    reveal(is_simple_path);
                    if path.len() >= 2 && path.first() == root && path.last() == target {
                        assert(path[0] == path[path.len() - 1]);
                    }
                }
            }
        }
        let ghost added = found@;
        paths.append(&mut found);
        proof {
            assert(now =~= seen.push(target));
            assert forall|k: int| 0 <= k < paths@.len() implies leads_to_some(
                edges,
                root,
                now,
                (#[trigger] paths@[k])@,
            ) by {
                if k < before.len() {
                    assert(paths@[k] == before[k]);
                    let t = choose|t: int|
                        0 <= t < seen.len() && is_simple_path(
                            edges,
                            root,
                            #[trigger] seen[t],
                            before[k]@,
                        );
                    assert(now[t] == seen[t]);
                } else {
                    assert(paths@[k] == added[k - before.len()]);
                    assert(now[i as int] == target);
                }
            }
            assert forall|path: Seq<usize>| #[trigger]
                leads_to_some(edges, root, now, path) implies is_listed(paths@, path) by {
                let t = choose|t: int|
                    0 <= t < now.len() && is_simple_path(edges, root, #[trigger] now[t], path);
                if t < i {
                    assert(seen[t] == now[t]);
                    assert(leads_to_some(edges, root, seen, path));
                    let k = choose|k: int| 0 <= k < before.len() && (#[trigger] before[k])@ == path;
                    assert(paths@[k] == before[k]);
                } else {
                    let k = choose|k: int| 0 <= k < added.len() && (#[trigger] added[k])@ == path;
                    assert(paths@[before.len() + k] == added[k]);
                }
            }
        }
        i = i + 1;
    }
    assert(targets@.take(i as int) =~= targets@);
    paths
}

proof fn lemma_pruned_path(
    all: Seq<Seq<Dependency>>,
    edges: Set<(usize, usize)>,
    hidden: Seq<usize>,
    roots: Seq<usize>,
    protected: Seq<usize>,
    root: usize,
    target: usize,
    path: Seq<usize>,
)
    requires
        forall|a: usize, b: usize| #[trigger]
            edges.contains((a, b)) ==> normal_edge(all, a, b) && !hidden.contains(a)
                && !hidden.contains(b),
        is_simple_path(edges, root, target, path),
        roots.contains(root),
        protected.contains(target),
    ensures
        is_breach(all, roots, protected, hidden, path),
{
    reveal(is_simple_path);
    reveal(is_breach);
    assert forall|i: int| 0 <= i < path.len() implies !hidden.contains(#[trigger] path[i]) by {
        if i < path.len() - 1 {
            assert(edges.contains(step(path, i)));
        } else {
            assert(edges.contains(step(path, i - 1)));
        }
    }
    assert forall|i: int| 0 <= i < path.len() - 1 implies normal_edge(
        all,
        (#[trigger] step(path, i)).0,
        step(path, i).1,
    ) by {
        assert(edges.contains(step(path, i)));
    }
}

impl Packages {
    /// The packages that `gate` depends on normally and that are not among
    /// `exempt`, each once, in the order in which `gate` names them first.
    pub fn protected_by(&self, gate: usize, exempt: &Vec<usize>) -> (protected: Vec<usize>)
        ensures
            protected@ == kept(targets_of(self@, gate), exempt@),
            forall|p: usize| #[trigger]
                protected@.contains(p) <==> targets_of(self@, gate).contains(p)
                    && !exempt@.contains(p),
            forall|i: int, j: int| 0 <= i < j < protected@.len() ==> protected@[i] != protected@[j],
    {
        let deps = self.normal_deps(gate);
        let mut protected: Vec<usize> = Vec::new();
        let mut i: usize = 0;
        while i < deps.len()
            invariant
                i <= deps@.len(),
                protected@ == kept(deps@.take(i as int), exempt@),
            decreases deps@.len() - i,
        {
            let dep = deps[i];
            proof {
                assert(deps@.take(i + 1).drop_last() =~= deps@.take(i as int));
                assert(deps@.take(i + 1).last() == dep);
            }
            if !is_among(exempt, dep) && !is_among(&protected, dep) {
                protected.push(dep);
            }
            i = i + 1;
        }
        proof {
            assert(deps@.take(i as int) =~= deps@);
            lemma_kept(deps@, exempt@);
        }
        protected
    }

    /// The dependency paths that break the encapsulation of `gate`: paths
    /// from one of `roots` to a package that `gate` protects which pass
    /// neither `gate` nor any of `hidden`. The protected packages are those
    /// that `gate` depends on normally, but for the `exempt` ones. The paths
    /// are looked for in the graph of each root, so each leads over the edges
    /// by which the packages were first reached from that root.
    pub fn encapsulation_breaches(
        &self,
        roots: &Vec<usize>,
        gate: usize,
        hidden: &Vec<usize>,
        exempt: &Vec<usize>,
    ) -> (res: (Vec<usize>, Vec<Vec<usize>>))
        ensures
            res.0@ == kept(targets_of(self@, gate), exempt@),
            forall|p: usize| #[trigger]
                res.0@.contains(p) <==> targets_of(self@, gate).contains(p)
                    && !exempt@.contains(p),
            forall|k: int|
                0 <= k < res.1@.len() ==> is_breach(
                    self@,
                    roots@,
                    res.0@,
                    hidden@.push(gate),
                    (#[trigger] res.1@[k])@,
                ),
    {
        let protected = self.protected_by(gate, exempt);
        let ghost all = self@;
        let ghost barred = hidden@.push(gate);
        let mut breaches: Vec<Vec<usize>> = Vec::new();
        let mut r: usize = 0;
        while r < roots.len()
            invariant
                r <= roots@.len(),
                all == self@,
                barred == hidden@.push(gate),
                forall|k: int|
                    0 <= k < breaches@.len() ==> is_breach(
                        all,
                        roots@,
                        protected@,
                        barred,
                        (#[trigger] breaches@[k])@,
                    ),
            decreases roots@.len() - r,
        {
            let root = roots[r];
            let mut graph = self.graph(root);
            let ghost whole = graph_edges(graph);
            graph_remove_node(&mut graph, gate);
            let mut h: usize = 0;
            assert(barred[hidden@.len() as int] == gate);
            while h < hidden.len()
                invariant
                    h <= hidden@.len(),
                    barred == hidden@.push(gate),
                    forall|a: usize, b: usize| #[trigger]
                        graph_edges(graph).contains((a, b)) ==> whole.contains((a, b)) && a != gate
                            && b != gate && !hidden@.take(h as int).contains(a) && !hidden@.take(
                            h as int,
                        ).contains(b),
                decreases hidden@.len() - h,
            {
                let ghost seen = hidden@.take(h as int);
                graph_remove_node(&mut graph, hidden[h]);
                proof {
                    let now = hidden@.take(h + 1);
                    assert(now =~= seen.push(hidden@[h as int]));
                    assert forall|x: usize| now.contains(x) implies seen.contains(x) || x
                        == hidden@[h as int] by {
                        let m = choose|m: int| 0 <= m < now.len() && now[m] == x;
                        if m < h {
                            assert(seen[m] == x);
                        }
                    }
                }
                h = h + 1;
            }
            let mut found = paths_to(&graph, root, &protected);
            let ghost added = found@;
            let ghost before = breaches@;
            breaches.append(&mut found);
            proof {
                assert(hidden@.take(h as int) =~= hidden@);
                assert forall|a: usize, b: usize| #[trigger]
                    graph_edges(graph).contains((a, b)) implies normal_edge(all, a, b)
                    && !barred.contains(a) && !barred.contains(b) by {
                    assert(whole.contains((a, b)));
                    assert forall|x: usize| barred.contains(x) implies hidden@.contains(x) || x
                        == gate by {
                        let m = choose|m: int| 0 <= m < barred.len() && barred[m] == x;
                        if m < hidden@.len() {
                            assert(hidden@[m] == x);
                        }
                    }
                }
                assert forall|k: int| 0 <= k < breaches@.len() implies is_breach(
                    all,
                    roots@,
                    protected@,
                    barred,
                    (#[trigger] breaches@[k])@,
                ) by {
                    if k < before.len() {
                        assert(breaches@[k] == before[k]);
                    } else {
                        let path = added[k - before.len()];
                        assert(breaches@[k] == path);
                        let t = choose|t: int|
                            0 <= t < protected@.len() && is_simple_path(
                                graph_edges(graph),
                                root,
                                #[trigger] protected@[t],
                                path@,
                            );
                        assert(roots@[r as int] == root);
                        lemma_pruned_path(
                            all,
                            graph_edges(graph),
                            barred,
                            roots@,
                            protected@,
                            root,
                            protected@[t],
                            path@,
                        );
                    }
                }
            }
            r = r + 1;
        }
        (protected, breaches)
    }
}

} // verus!
