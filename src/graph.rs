use vstd::prelude::*;

verus! {

/// One independently buildable and flashable firmware unit.
pub struct Image {
    pub secure: bool,
    pub path: String,
    pub dependencies: Vec<String>,
}

/// Why a set of images has no build order.
#[derive(Debug)]
pub enum ResolveError {
    /// `image` lists `dependency`, which names no image of the set.
    UnknownDependency { image: String, dependency: String },
    /// The images that could not be ordered: every image on a dependency
    /// cycle, and those that depend on one.
    CyclicDependency { images: Vec<String> },
    /// The set has too many images or dependencies for a graph with 32-bit
    /// indices.
    GraphTooLarge,
}

/// An edge `(a, b)` of the build graph: image `a` must be built before image `b`.
pub type Edge = (usize, usize);

pub open spec fn name_of(s: Seq<(String, Image)>, i: int) -> Seq<char> {
    s[i].0@
}

pub open spec fn deps_of(s: Seq<(String, Image)>, i: int) -> Seq<Seq<char>> {
    s[i].1.dependencies@.map_values(|d: String| d@)
}

pub open spec fn has_name(s: Seq<(String, Image)>, d: Seq<char>) -> bool {
    exists|j: int| 0 <= j < s.len() && #[trigger] name_of(s, j) == d
}

/// No two images share a name.
pub open spec fn names_unique(s: Seq<(String, Image)>) -> bool {
    forall|i: int, j: int|
        0 <= i < s.len() && 0 <= j < s.len() && #[trigger] name_of(s, i) == #[trigger] name_of(
            s,
            j,
        ) ==> i == j
}

/// Every dependency that an image lists names an image of the set.
pub open spec fn deps_known(s: Seq<(String, Image)>) -> bool {
    forall|i: int, k: int|
        0 <= i < s.len() && 0 <= k < deps_of(s, i).len() ==> has_name(
            s,
            #[trigger] deps_of(s, i)[k],
        )
}

/// The index of the image called `d`.
pub open spec fn index_of_name(s: Seq<(String, Image)>, d: Seq<char>) -> int {
    choose|j: int| 0 <= j < s.len() && name_of(s, j) == d
}

/// The edges from the first `k` dependencies of image `i` to image `i`.
pub open spec fn dep_edges(s: Seq<(String, Image)>, i: int, k: int) -> Seq<Edge>
    decreases k,
{
    if k <= 0 {
        seq![]
    } else {
        dep_edges(s, i, k - 1).push(
            (index_of_name(s, deps_of(s, i)[k - 1]) as usize, i as usize),
        )
    }
}

/// The edges contributed by the first `i` images.
pub open spec fn edges_upto(s: Seq<(String, Image)>, i: int) -> Seq<Edge>
    decreases i,
{
    if i <= 0 {
        seq![]
    } else {
        edges_upto(s, i - 1) + dep_edges(s, i - 1, deps_of(s, i - 1).len() as int)
    }
}

/// The build graph: an edge from each dependency to each image that lists it.
pub open spec fn build_edges(s: Seq<(String, Image)>) -> Seq<Edge> {
    edges_upto(s, s.len() as int)
}

pub open spec fn is_edge(edges: Seq<Edge>, a: int, b: int) -> bool {
    exists|k: int|
        0 <= k < edges.len() && (#[trigger] edges[k]).0 as int == a && edges[k].1 as int == b
}

/// `p` walks along edges, with at least one step.
pub open spec fn is_path(edges: Seq<Edge>, p: Seq<int>) -> bool {
    &&& p.len() >= 2
    &&& forall|k: int| 0 <= k < p.len() - 1 ==> is_edge(edges, #[trigger] p[k], p[k + 1])
}

/// Some path leads from a node back to itself.
pub open spec fn has_cycle(edges: Seq<Edge>) -> bool {
    exists|p: Seq<int>| #[trigger] is_path(edges, p) && p[0] == p[p.len() - 1]
}

/// The order in which petgraph's topological walk visits the nodes
/// `0..n` of the graph with the given edges.
pub uninterp spec fn topo_of(n: nat, edges: Seq<Edge>) -> Seq<usize>;

/// Relies on petgraph's `Topo` walk over a `DiGraph` built with nodes `0..n`
/// and the edges in the given order. The walk visits each node at most once,
/// only after every node with an edge into it, and, where the graph has no
/// cycle, visits every node; it depends on the graph alone.
#[verifier::external_body]
fn topo_order(n: usize, edges: &Vec<Edge>) -> (r: Vec<usize>)
    requires
        n < u32::MAX,
        edges.len() < u32::MAX,
        forall|k: int| 0 <= k < edges.len() ==> (#[trigger] edges[k]).0 < n && edges[k].1 < n,
    ensures
        r@ == topo_of(n as nat, edges@),
        r@.no_duplicates(),
        forall|j: int| 0 <= j < r.len() ==> r[j] < n,
        forall|k: int, j: int|
            #![trigger edges[k], r[j]]
            0 <= k < edges.len() && 0 <= j < r.len() && r[j] == edges[k].1 ==> exists|i: int|
                0 <= i < j && #[trigger] r[i] == edges[k].0,
        !has_cycle(edges@) ==> forall|v: usize| v < n ==> r@.contains(v),
{
    let mut g = petgraph::graph::DiGraph::<(), ()>::with_capacity(n, edges.len());
    for _ in 0..n {
        g.add_node(());
    }
    for &(a, b) in edges.iter() {
        g.add_edge(petgraph::graph::NodeIndex::new(a), petgraph::graph::NodeIndex::new(b), ());
    }
    let mut topo = petgraph::visit::Topo::new(&g);
    let mut r = Vec::new();
    while let Some(x) = topo.next(&g) {
        r.push(x.index());
    }
    r
}

} // verus!

verus! {

/// The position of node `v` in the walk `t`.
pub open spec fn pos(t: Seq<usize>, v: int) -> int {
    choose|j: int| 0 <= j < t.len() && t[j] as int == v
}

/// Every edge leads from an earlier to a later node of `t`, which holds
/// every node `0..n` exactly once.
pub open spec fn orders_all(t: Seq<usize>, n: nat, edges: Seq<Edge>) -> bool {
    &&& t.no_duplicates()
    &&& forall|v: usize| v < n ==> t.contains(v)
    &&& forall|j: int| 0 <= j < t.len() ==> t[j] < n
    &&& forall|k: int|
        0 <= k < edges.len() ==> (#[trigger] edges[k]).0 < n && edges[k].1 < n && pos(
            t,
            edges[k].0 as int,
        ) < pos(t, edges[k].1 as int)
}

proof fn lemma_pos(t: Seq<usize>, j: int)
    requires
        t.no_duplicates(),
        0 <= j < t.len(),
    ensures
        pos(t, t[j] as int) == j,
{
    let v = t[j] as int;
    assert(exists|i: int| 0 <= i < t.len() && t[i] as int == v);
    let i = pos(t, v);
    assert(t[i] == t[j]);
}

proof fn lemma_pos_of_member(t: Seq<usize>, v: usize)
    requires
        t.contains(v),
    ensures
        0 <= pos(t, v as int) < t.len(),
        t[pos(t, v as int)] == v,
{
    let j = choose|j: int| 0 <= j < t.len() && t[j] == v;
    assert(t[j] as int == v as int);
}

/// Along a path through a graph that `t` orders, the positions grow.
proof fn lemma_path_ascends(t: Seq<usize>, n: nat, edges: Seq<Edge>, p: Seq<int>)
    requires
        orders_all(t, n, edges),
        is_path(edges, p),
    ensures
        0 <= p[0] < n,
        0 <= p[p.len() - 1] < n,
        pos(t, p[0]) < pos(t, p[p.len() - 1]),
    decreases p.len(),
{
    let m = p.len();
    assert(is_edge(edges, p[m - 2], p[m - 1]));
    let k = choose|k: int|
        0 <= k < edges.len() && (#[trigger] edges[k]).0 as int == p[m - 2] && edges[k].1 as int
            == p[m - 1];
    if m == 2 {
        assert(is_edge(edges, p[0], p[1]));
    } else {
        let q = p.drop_last();
        assert forall|i: int| 0 <= i < q.len() - 1 implies is_edge(edges, #[trigger] q[i], q[i + 1]) by {
            assert(is_edge(edges, p[i], p[i + 1]));
        }
        lemma_path_ascends(t, n, edges, q);
    }
}

/// A graph whose nodes `t` orders along every edge has no cycle.
proof fn lemma_ordered_no_cycle(t: Seq<usize>, n: nat, edges: Seq<Edge>)
    requires
        orders_all(t, n, edges),
    ensures
        !has_cycle(edges),
{
    if has_cycle(edges) {
        let p = choose|p: Seq<int>| #[trigger] is_path(edges, p) && p[0] == p[p.len() - 1];
        lemma_path_ascends(t, n, edges, p);
    }
}

/// Some edge of `edges` leads from the `k`-th dependency of image `i` to it.
pub open spec fn has_dep_edge(edges: Seq<Edge>, s: Seq<(String, Image)>, i: int, k: int) -> bool {
    exists|e: int|
        0 <= e < edges.len() && #[trigger] edges[e] == (
            index_of_name(s, deps_of(s, i)[k]) as usize,
            i as usize,
        )
}

/// Every node that the walk `t` holds comes after each node with an edge into it.
pub open spec fn walk_closed(t: Seq<usize>, edges: Seq<Edge>) -> bool {
    forall|k: int, j: int|
        #![trigger edges[k], t[j]]
        0 <= k < edges.len() && 0 <= j < t.len() && t[j] == edges[k].1 ==> exists|i: int|
            0 <= i < j && #[trigger] t[i] == edges[k].0
}

/// Image `v` lies on a cycle of the build graph.
pub open spec fn on_cycle(edges: Seq<Edge>, v: int) -> bool {
    exists|p: Seq<int>| #[trigger] is_path(edges, p) && p[0] == p[p.len() - 1] && p[0] == v
}

/// In a closed walk, a path that ends at a node of the walk starts at an
/// earlier node of the walk.
proof fn lemma_path_reaches_back(t: Seq<usize>, edges: Seq<Edge>, p: Seq<int>, j: int)
    requires
        walk_closed(t, edges),
        is_path(edges, p),
        0 <= j < t.len(),
        t[j] as int == p[p.len() - 1],
    ensures
        exists|i: int| 0 <= i < j && t[i] as int == p[0],
    decreases p.len(),
{
    let m = p.len();
    assert(is_edge(edges, p[m - 2], p[m - 1]));
    let k = choose|k: int|
        0 <= k < edges.len() && (#[trigger] edges[k]).0 as int == p[m - 2] && edges[k].1 as int
            == p[m - 1];
    assert(t[j] == edges[k].1);
    let i = choose|i: int| 0 <= i < j && #[trigger] t[i] == edges[k].0;
    if m > 2 {
        let q = p.drop_last();
        assert forall|x: int| 0 <= x < q.len() - 1 implies is_edge(edges, #[trigger] q[x], q[x + 1]) by {
            assert(is_edge(edges, p[x], p[x + 1]));
        }
        lemma_path_reaches_back(t, edges, q, i);
        let h = choose|h: int| 0 <= h < i && t[h] as int == q[0];
    }
}

/// A node on a cycle is never in a closed walk.
proof fn lemma_cycle_not_walked(t: Seq<usize>, edges: Seq<Edge>, v: int)
    requires
        walk_closed(t, edges),
        on_cycle(edges, v),
    ensures
        forall|j: int| 0 <= j < t.len() ==> t[j] as int != v,
{
    let p = choose|p: Seq<int>| #[trigger] is_path(edges, p) && p[0] == p[p.len() - 1] && p[0] == v;
    lemma_not_before(t, edges, p, t.len() as int);
}

/// A cycle's first node stands at none of the first `bound` positions of a
/// closed walk.
proof fn lemma_not_before(t: Seq<usize>, edges: Seq<Edge>, p: Seq<int>, bound: int)
    requires
        walk_closed(t, edges),
        is_path(edges, p),
        p[0] == p[p.len() - 1],
        0 <= bound <= t.len(),
    ensures
        forall|j: int| 0 <= j < bound ==> t[j] as int != p[0],
    decreases bound,
{
    if bound > 0 {
        lemma_not_before(t, edges, p, bound - 1);
        if t[bound - 1] as int == p[0] {
            lemma_path_reaches_back(t, edges, p, bound - 1);
        }
    }
}

/// The index of the image called `d`, if any.
fn find_image(images: &Vec<(String, Image)>, d: &String) -> (r: Option<usize>)
    requires
        names_unique(images@),
    ensures
        match r {
            Some(j) => j < images.len() && name_of(images@, j as int) == d@ && index_of_name(
                images@,
                d@,
            ) == j,
            None => !has_name(images@, d@),
        },
{
    let mut j: usize = 0;
    while j < images.len()
        invariant
            j <= images.len(),
            names_unique(images@),
            forall|i: int| 0 <= i < j ==> name_of(images@, i) != d@,
        decreases images.len() - j,
    {
        let found = images[j].0 == *d;
        if found {
            assert(images@[j as int].0@ == d@);
            assert(name_of(images@, j as int) == d@);
            assert(has_name(images@, d@));
            let ghost c = index_of_name(images@, d@);
            assert(0 <= c < images.len() && name_of(images@, c) == d@);
            assert(name_of(images@, c) == name_of(images@, j as int));
            return Some(j);
        }
        j += 1;
    }
    None
}

proof fn lemma_dep_edges_len(s: Seq<(String, Image)>, i: int, k: int)
    requires
        k >= 0,
    ensures
        dep_edges(s, i, k).len() == k,
    decreases k,
{
    if k > 0 {
        lemma_dep_edges_len(s, i, k - 1);
    }
}

/// The build graph's edges, or the first dependency that names no image.
fn build_graph(images: &Vec<(String, Image)>) -> (r: Result<Vec<Edge>, ResolveError>)
    requires
        names_unique(images@),
    ensures
        match r {
            Ok(edges) => {
                &&& deps_known(images@)
                &&& edges@ == build_edges(images@)
                &&& forall|e: int|
                    0 <= e < edges.len() ==> (#[trigger] edges[e]).0 < images.len() && edges[e].1
                        < images.len()
                &&& forall|i: int, k: int|
                    0 <= i < images.len() && 0 <= k < deps_of(images@, i).len() ==> #[trigger] has_dep_edge(
                        edges@,
                        images@,
                        i,
                        k,
                    )
            },
            Err(ResolveError::UnknownDependency { image, dependency }) => exists|i: int, k: int|
                0 <= i < images.len() && 0 <= k < deps_of(images@, i).len() && name_of(images@, i)
                    == image@ && #[trigger] deps_of(images@, i)[k] == dependency@ && !has_name(
                    images@,
                    dependency@,
                ),
            Err(_) => false,
        },
        deps_known(images@) ==> r is Ok,
{
    let ghost s = images@;
    let n = images.len();
    let mut edges: Vec<Edge> = Vec::new();
    let mut i: usize = 0;
    while i < n
        invariant
            n == images.len(),
            s == images@,
            names_unique(s),
            i <= n,
            edges@ == edges_upto(s, i as int),
            forall|e: int| 0 <= e < edges.len() ==> (#[trigger] edges[e]).0 < n && edges[e].1 < n,
            forall|i2: int, k: int|
                0 <= i2 < i && 0 <= k < deps_of(s, i2).len() ==> has_name(
                    s,
                    #[trigger] deps_of(s, i2)[k],
                ),
            forall|i2: int, k: int|
                0 <= i2 < i && 0 <= k < deps_of(s, i2).len() ==> #[trigger] has_dep_edge(
                    edges@,
                    s,
                    i2,
                    k,
                ),
        decreases n - i,
    {
        let deps = &images[i].1.dependencies;
        let mut k: usize = 0;
        while k < deps.len()
            invariant
                n == images.len(),
                s == images@,
                names_unique(s),
                i < n,
                deps == &s[i as int].1.dependencies,
                k <= deps.len(),
                edges@ == edges_upto(s, i as int) + dep_edges(s, i as int, k as int),
                forall|e: int|
                    0 <= e < edges.len() ==> (#[trigger] edges[e]).0 < n && edges[e].1 < n,
                forall|i2: int, k2: int|
                    0 <= i2 < i && 0 <= k2 < deps_of(s, i2).len() ==> has_name(
                        s,
                        #[trigger] deps_of(s, i2)[k2],
                    ),
                forall|k2: int| 0 <= k2 < k ==> has_name(s, #[trigger] deps_of(s, i as int)[k2]),
                forall|i2: int, k2: int|
                    0 <= i2 < i && 0 <= k2 < deps_of(s, i2).len() ==> #[trigger] has_dep_edge(
                        edges@,
                        s,
                        i2,
                        k2,
                    ),
                forall|k2: int| 0 <= k2 < k ==> #[trigger] has_dep_edge(edges@, s, i as int, k2),
            decreases deps.len() - k,
        {
            assert(deps_of(s, i as int)[k as int] == deps[k as int]@);
            match find_image(images, &deps[k]) {
                Some(j) => {
                    let ghost before = edges@;
                    edges.push((j, i));
                    assert(edges[edges.len() - 1] == (
                        index_of_name(s, deps_of(s, i as int)[k as int]) as usize,
                        i as usize,
                    ));
                    assert forall|i2: int, k2: int|
                        0 <= i2 < i && 0 <= k2 < deps_of(s, i2).len() implies #[trigger] has_dep_edge(
                            edges@,
                            s,
                            i2,
                            k2,
                        ) by {
                        assert(has_dep_edge(before, s, i2, k2));
                        let e = choose|e: int|
                            0 <= e < before.len() && #[trigger] before[e] == (
                                index_of_name(s, deps_of(s, i2)[k2]) as usize,
                                i2 as usize,
                            );
                        assert(edges[e] == before[e]);
                    }
                    assert forall|k2: int| 0 <= k2 < k + 1 implies #[trigger] has_dep_edge(
                        edges@,
                        s,
                        i as int,
                        k2,
                    ) by {
                        if k2 < k {
                            assert(has_dep_edge(before, s, i as int, k2));
                            let e = choose|e: int|
                                0 <= e < before.len() && #[trigger] before[e] == (
                                    index_of_name(s, deps_of(s, i as int)[k2]) as usize,
                                    i as usize,
                                );
                            assert(edges[e] == before[e]);
                        } else {
                            assert(edges[edges.len() - 1] == (
                                index_of_name(s, deps_of(s, i as int)[k2]) as usize,
                                i as usize,
                            ));
                        }
                    }
                    assert(dep_edges(s, i as int, k + 1) == dep_edges(s, i as int, k as int).push(
                        (j, i),
                    ));
                    assert(edges@ == edges_upto(s, i as int) + dep_edges(s, i as int, k + 1));
                },
                None => {
                    let image = images[i].0.clone();
                    let dependency = deps[k].clone();
                    assert(deps_of(s, i as int)[k as int] == dependency@);
                    return Err(ResolveError::UnknownDependency { image, dependency });
                },
            }
            k += 1;
        }
        assert(deps_of(s, i as int).len() == deps.len());
        assert(edges_upto(s, i + 1) == edges_upto(s, i as int) + dep_edges(
            s,
            i as int,
            deps_of(s, i as int).len() as int,
        ));
        i += 1;
    }
    assert(deps_known(s));
    assert(edges@ == build_edges(s));
    Ok(edges)
}

} // verus!

verus! {

/// The nodes in the order petgraph's walk visits the build graph.
pub open spec fn walk_of(s: Seq<(String, Image)>) -> Seq<usize> {
    topo_of(s.len() as nat, build_edges(s))
}

/// The build order, as image names, for a set of images whose dependencies
/// are all known and acyclic. It is a function of the set alone, so that
/// resolving the same set twice gives the same order.
pub open spec fn build_order_spec(s: Seq<(String, Image)>) -> Seq<Seq<char>> {
    walk_of(s).map_values(|v: usize| name_of(s, v as int))
}

/// `x` stands strictly before `y` in `order`.
pub open spec fn before(order: Seq<Seq<char>>, x: Seq<char>, y: Seq<char>) -> bool {
    exists|a: int, b: int| 0 <= a < b < order.len() && order[a] == x && order[b] == y
}

/// Image `v` is one that the walk could not place.
pub open spec fn unordered(s: Seq<(String, Image)>, v: int) -> bool {
    0 <= v < s.len() && !walk_of(s).contains(v as usize)
}

/// `x` is the name of an image that the walk could not place.
pub open spec fn names_unordered(s: Seq<(String, Image)>, x: Seq<char>) -> bool {
    exists|v: int| unordered(s, v) && name_of(s, v) == x
}

/// Some entry of `list` reads `x`.
pub open spec fn names_listed(list: Seq<String>, x: Seq<char>) -> bool {
    exists|j: int| 0 <= j < list.len() && list[j]@ == x
}

pub open spec fn names_view(v: Seq<String>) -> Seq<Seq<char>> {
    v.map_values(|x: String| x@)
}

/// Turns a list of uniquely named images into the order in which they are
/// built: every dependency, direct or transitive, strictly before each image
/// that needs it.
fn resolve_entries(images: &Vec<(String, Image)>) -> (r: Result<Vec<String>, ResolveError>)
    requires
        names_unique(images@),
    ensures
        resolved(images@, r),
{
    let ghost s = images@;
    let n = images.len();
    let edges = match build_graph(images) {
        Ok(edges) => edges,
        Err(e) => {
            return Err(e);
        },
    };
    if n >= u32::MAX as usize || edges.len() >= u32::MAX as usize {
        return Err(ResolveError::GraphTooLarge);
    }
    let walk = topo_order(n, &edges);
    let ghost t = walk@;
    let mut placed: Vec<bool> = Vec::new();
    let mut v: usize = 0;
    while v < n
        invariant
            v <= n,
            placed.len() == v,
            forall|u: int| 0 <= u < v ==> !placed[u],
        decreases n - v,
    {
        placed.push(false);
        v += 1;
    }
    let mut j: usize = 0;
    while j < walk.len()
        invariant
            t == walk@,
            placed.len() == n,
            j <= walk.len(),
            forall|q: int| 0 <= q < walk.len() ==> walk[q] < n,
            forall|u: int|
                0 <= u < n ==> (placed[u] <==> exists|q: int|
                    0 <= q < j && #[trigger] walk[q] as int == u),
        decreases walk.len() - j,
    {
        placed.set(walk[j], true);
        j += 1;
    }
    let mut stuck: Vec<String> = Vec::new();
    let mut v: usize = 0;
    while v < n
        invariant
            n == images.len(),
            s == images@,
            t == walk@,
            t == walk_of(s),
            placed.len() == n,
            v <= n,
            forall|u: int| 0 <= u < n ==> (placed[u] <==> t.contains(u as usize)),
            forall|m: int| 0 <= m < stuck.len() ==> names_unordered(s, (#[trigger] stuck[m])@),
            forall|u: int|
                0 <= u < v && #[trigger] unordered(s, u) ==> names_listed(stuck@, name_of(s, u)),
            forall|u: int| 0 <= u < n && !placed[u] ==> #[trigger] unordered(s, u),
        decreases n - v,
    {
        if !placed[v] {
            let ghost prev = stuck@;
            stuck.push(images[v].0.clone());
            proof {
                assert(unordered(s, v as int));
                assert(stuck[stuck.len() - 1]@ == name_of(s, v as int));
                assert forall|u: int|
                    0 <= u < v + 1 && #[trigger] unordered(s, u) implies names_listed(
                        stuck@,
                        name_of(s, u),
                    ) by {
                    if u < v {
                        assert(names_listed(prev, name_of(s, u)));
                        let m = choose|m: int| 0 <= m < prev.len() && prev[m]@ == name_of(s, u);
                        assert(stuck[m] == prev[m]);
                    } else {
                        assert(stuck[stuck.len() - 1]@ == name_of(s, u));
                    }
                }
                assert forall|m: int| 0 <= m < stuck.len() implies names_unordered(
                    s,
                    (#[trigger] stuck[m])@,
                ) by {
                    if m < prev.len() {
                        assert(stuck[m] == prev[m]);
                        assert(names_unordered(s, prev[m]@));
                    } else {
                        assert(unordered(s, v as int) && name_of(s, v as int) == stuck[m]@);
                    }
                }
            }
        } else {
            assert(!unordered(s, v as int));
        }
        v += 1;
    }
    if stuck.len() > 0 {
        proof {
            assert(names_unordered(s, stuck[0]@));
            let u = choose|u: int| unordered(s, u) && name_of(s, u) == stuck[0]@;
            assert(!t.contains(u as usize));
            assert(has_cycle(edges@));
            assert(walk_closed(t, edges@));
            assert forall|v: int| 0 <= v < n && #[trigger] on_cycle(edges@, v) implies unordered(s, v) by {
                lemma_cycle_not_walked(t, edges@, v);
                if t.contains(v as usize) {
                    let j = choose|j: int| 0 <= j < t.len() && t[j] == v as usize;
                    assert(t[j] as int == v);
                }
            }
        }
        return Err(ResolveError::CyclicDependency { images: stuck });
    }
    proof {
        assert forall|u: usize| u < n implies t.contains(u) by {
            if !t.contains(u) {
                assert(unordered(s, u as int));
            }
        }
        assert forall|k: int| 0 <= k < edges.len() implies pos(t, (#[trigger] edges[k]).0 as int)
            < pos(t, edges[k].1 as int) by {
            let b = edges[k].1;
            lemma_pos_of_member(t, b);
            let jb = pos(t, b as int);
            assert(walk[jb] == edges[k].1);
            let i = choose|i: int| 0 <= i < jb && #[trigger] walk[i] == edges[k].0;
            lemma_pos(t, i);
        }
        assert(orders_all(t, n as nat, edges@));
        lemma_ordered_no_cycle(t, n as nat, edges@);
    }
    let mut order: Vec<String> = Vec::new();
    let mut j: usize = 0;
    while j < walk.len()
        invariant
            n == images.len(),
            s == images@,
            t == walk@,
            j <= walk.len(),
            forall|q: int| 0 <= q < walk.len() ==> walk[q] < n,
            order.len() == j,
            forall|q: int| 0 <= q < j ==> (#[trigger] order[q])@ == name_of(s, t[q] as int),
        decreases walk.len() - j,
    {
        order.push(images[walk[j]].0.clone());
        j += 1;
    }
    proof {
        let ov = names_view(order@);
        assert(ov =~= build_order_spec(s));
        assert forall|a: int| 0 <= a < order.len() implies #[trigger] ov[a] == name_of(s, t[a] as int) by {
            assert(ov[a] == order[a]@);
        }
        assert(order.len() == n) by {
            lemma_names_fill(t, n as nat);
        }
        assert forall|a: int, b: int| 0 <= a < ov.len() && 0 <= b < ov.len() && a != b implies ov[a]
            != ov[b] by {
            assert(ov[a] == name_of(s, t[a] as int));
            assert(ov[b] == name_of(s, t[b] as int));
        }
        assert forall|i: int| 0 <= i < images.len() implies ov.contains(
            #[trigger] name_of(images@, i),
        ) by {
            lemma_pos_of_member(t, i as usize);
            let a = pos(t, i);
            assert(ov[a] == name_of(s, i));
        }
        assert forall|i: int, k: int|
            0 <= i < images.len() && 0 <= k < deps_of(images@, i).len() implies before(
                ov,
                #[trigger] deps_of(images@, i)[k],
                name_of(images@, i),
            ) by {
            assert(has_dep_edge(edges@, s, i, k));
            let e = choose|e: int|
                0 <= e < edges.len() && #[trigger] edges[e] == (
                    index_of_name(s, deps_of(s, i)[k]) as usize,
                    i as usize,
                );
            let d = deps_of(s, i)[k];
            assert(has_name(s, d));
            let x = index_of_name(s, d);
            assert(0 <= x < n && name_of(s, x) == d);
            assert(edges[e].0 < n && edges[e].1 < n);
            lemma_pos_of_member(t, x as usize);
            lemma_pos_of_member(t, i as usize);
            assert(ov[pos(t, x)] == d);
            assert(ov[pos(t, i)] == name_of(s, i));
        }
        assert forall|p: Seq<int>| #[trigger] is_path(build_edges(images@), p) implies before(
            ov,
            name_of(images@, p[0]),
            name_of(images@, p[p.len() - 1]),
        ) by {
            lemma_path_ascends(t, n as nat, edges@, p);
            lemma_pos_of_member(t, p[0] as usize);
            lemma_pos_of_member(t, p[p.len() - 1] as usize);
            assert(ov[pos(t, p[0])] == name_of(s, p[0]));
            assert(ov[pos(t, p[p.len() - 1])] == name_of(s, p[p.len() - 1]));
        }
    }
    Ok(order)
}

/// A walk without repeats that holds every node `0..n`, and only those, has length `n`.
proof fn lemma_names_fill(t: Seq<usize>, n: nat)
    requires
        n <= usize::MAX,
        t.no_duplicates(),
        forall|v: usize| v < n ==> t.contains(v),
        forall|j: int| 0 <= j < t.len() ==> t[j] < n,
    ensures
        t.len() == n,
{
    let full = Set::new(|v: usize| v < n);
    assert(t.to_set() =~= full) by {
        assert forall|v: usize| full.contains(v) implies t.to_set().contains(v) by {}
        assert forall|v: usize| t.to_set().contains(v) implies full.contains(v) by {
            let j = choose|j: int| 0 <= j < t.len() && t[j] == v;
        }
    }
    t.unique_seq_to_set();
    let range = vstd::set_lib::set_int_range(0, n as int);
    vstd::set_lib::lemma_int_range(0, n as int);
    let g = |i: int| i as usize;
    assert(range.map(g) =~= full) by {
        assert forall|v: usize| full.contains(v) implies range.map(g).contains(v) by {
            assert(range.contains(v as int) && g(v as int) == v);
        }
    }
    assert forall|x: int, y: int|
        range.contains(x) && range.contains(y) && #[trigger] g(x) == #[trigger] g(y) implies x
            == y by {}
    assert(vstd::relations::injective_on(g, range));
    vstd::set_lib::lemma_map_size(range, full, g);
}

} // verus!

verus! {

/// Some image of `s` is a secure one.
pub open spec fn has_secure(s: Seq<(String, Image)>) -> bool {
    exists|i: int| 0 <= i < s.len() && (#[trigger] s[i]).1.secure
}

/// Whether any image of the list is a secure one.
fn any_secure_entry(images: &Vec<(String, Image)>) -> (r: bool)
    ensures
        r == has_secure(images@),
{
    let mut i: usize = 0;
    while i < images.len()
        invariant
            i <= images.len(),
            forall|j: int| 0 <= j < i ==> !(#[trigger] images@[j]).1.secure,
        decreases images.len() - i,
    {
        if images[i].1.secure {
            assert(images@[i as int].1.secure);
            return true;
        }
        i += 1;
    }
    false
}

/// The arguments for the build of one image beside the package path: the
/// library directory as a configuration value, `--release` where asked for,
/// and a linker search path for the directory of each dependency.
pub open spec fn build_args_spec(
    lib_dir_value: Seq<char>,
    dependency_dirs: Seq<Seq<char>>,
    release: bool,
) -> Seq<Seq<char>> {
    let head = seq!["-Zunstable-options"@, "--config"@, "env.FC_LIB_DIR="@ + lib_dir_value];
    let head = if release { head.push("--release"@) } else { head };
    head + dep_args_spec(dependency_dirs)
}

/// A `--config` pair per dependency directory, adding it to the linker's
/// search path.
pub open spec fn dep_args_spec(dirs: Seq<Seq<char>>) -> Seq<Seq<char>>
    decreases dirs.len(),
{
    if dirs.len() == 0 {
        seq![]
    } else {
        dep_args_spec(dirs.drop_last()) + seq![
            "--config"@,
            "target.thumbv8m.main-none-eabihf.rustflags=[\"-L"@ + dirs.last() + "\"]"@,
        ]
    }
}

impl Image {
    /// The build arguments for this image. `lib_dir_value` is the directory
    /// for its own artifacts, already written as a configuration value;
    /// `dependency_dirs` are the directories of its dependencies' artifacts.
    pub fn build_args(lib_dir_value: &String, dependency_dirs: &Vec<String>, release: bool) -> (r: Vec<String>)
        ensures
            names_view(r@) == build_args_spec(lib_dir_value@, names_view(dependency_dirs@), release),
    {
        proof {
            reveal_strlit("-Zunstable-options");
            reveal_strlit("--config");
            reveal_strlit("env.FC_LIB_DIR=");
            reveal_strlit("--release");
            reveal_strlit("target.thumbv8m.main-none-eabihf.rustflags=[\"-L");
            reveal_strlit("\"]");
        }
        let mut r: Vec<String> = Vec::new();
        r.push(String::from_str("-Zunstable-options"));
        r.push(String::from_str("--config"));
        let mut env = String::from_str("env.FC_LIB_DIR=");
        env.append(lib_dir_value.as_str());
        r.push(env);
        if release {
            r.push(String::from_str("--release"));
        }
        let ghost head = names_view(r@);
        let mut k: usize = 0;
        while k < dependency_dirs.len()
            invariant
                k <= dependency_dirs.len(),
                names_view(r@) == head + dep_args_spec(names_view(dependency_dirs@.take(k as int))),
            decreases dependency_dirs.len() - k,
        {
            let ghost before = r@;
            r.push(String::from_str("--config"));
            let mut flag = String::from_str("target.thumbv8m.main-none-eabihf.rustflags=[\"-L");
            flag.append(dependency_dirs[k].as_str());
            flag.append("\"]");
            r.push(flag);
            proof {
                let dirs = names_view(dependency_dirs@.take(k + 1));
                assert(dirs.drop_last() =~= names_view(dependency_dirs@.take(k as int)));
                assert(dirs.last() == dependency_dirs@[k as int]@);
                assert(names_view(r@) =~= names_view(before) + seq![
                    "--config"@,
                    "target.thumbv8m.main-none-eabihf.rustflags=[\"-L"@ + dirs.last() + "\"]"@,
                ]);
            }
            k += 1;
        }
        assert(dependency_dirs@.take(dependency_dirs.len() as int) =~= dependency_dirs@);
        assert(head =~= if release {
            seq!["-Zunstable-options"@, "--config"@, "env.FC_LIB_DIR="@ + lib_dir_value@].push("--release"@)
        } else {
            seq!["-Zunstable-options"@, "--config"@, "env.FC_LIB_DIR="@ + lib_dir_value@]
        });
        r
    }

    pub fn new(secure: bool, path: String, dependencies: Vec<String>) -> (r: Self)
        ensures
            r.secure == secure,
            r.path == path,
            r.dependencies == dependencies,
    {
        Image { secure, path, dependencies }
    }
}

} // verus!

verus! {

/// A set of images, each under its own name. Inserting a name again
/// replaces the image it had.
pub struct ImageSet {
    entries: Vec<(String, Image)>,
}

/// The set fits a graph with 32-bit indices.
pub open spec fn fits_graph(s: Seq<(String, Image)>) -> bool {
    s.len() < u32::MAX && build_edges(s).len() < u32::MAX
}

/// The result of resolving the images `s` (see `resolve_build_order`).
pub open spec fn resolved(s: Seq<(String, Image)>, r: Result<Vec<String>, ResolveError>) -> bool {
    match r {
        Err(ResolveError::GraphTooLarge) => deps_known(s) && !fits_graph(s),
        Ok(order) => {
            &&& fits_graph(s)
            &&& deps_known(s)
            &&& !has_cycle(build_edges(s))
            &&& names_view(order@) == build_order_spec(s)
            &&& order.len() == s.len()
            &&& names_view(order@).no_duplicates()
            &&& forall|i: int| 0 <= i < s.len() ==> names_view(order@).contains(#[trigger] name_of(s, i))
            &&& forall|i: int, k: int|
                0 <= i < s.len() && 0 <= k < deps_of(s, i).len() ==> before(
                    names_view(order@),
                    #[trigger] deps_of(s, i)[k],
                    name_of(s, i),
                )
            &&& forall|p: Seq<int>|
                #[trigger] is_path(build_edges(s), p) ==> before(
                    names_view(order@),
                    name_of(s, p[0]),
                    name_of(s, p[p.len() - 1]),
                )
        },
        Err(ResolveError::UnknownDependency { image, dependency }) => {
            &&& !deps_known(s)
            &&& exists|i: int, k: int|
                0 <= i < s.len() && 0 <= k < deps_of(s, i).len() && name_of(s, i) == image@
                    && #[trigger] deps_of(s, i)[k] == dependency@ && !has_name(s, dependency@)
        },
        Err(ResolveError::CyclicDependency { images: stuck }) => {
            &&& fits_graph(s)
            &&& deps_known(s)
            &&& has_cycle(build_edges(s))
            &&& stuck.len() > 0
            &&& forall|j: int| 0 <= j < stuck.len() ==> names_unordered(s, (#[trigger] stuck[j])@)
            &&& forall|v: int| #[trigger] unordered(s, v) ==> names_listed(stuck@, name_of(s, v))
            &&& forall|v: int|
                0 <= v < s.len() && #[trigger] on_cycle(build_edges(s), v) ==> names_listed(
                    stuck@,
                    name_of(s, v),
                )
        },
    }
}

impl ImageSet {
    /// The images, each with its name, in the order they were first inserted.
    pub closed spec fn entries(&self) -> Seq<(String, Image)> {
        self.entries@
    }

    pub closed spec fn wf(&self) -> bool {
        names_unique(self.entries@)
    }

    pub fn new() -> (r: Self)
        ensures
            r.wf(),
            r.entries() == Seq::<(String, Image)>::empty(),
    {
        ImageSet { entries: Vec::new() }
    }

    pub fn len(&self) -> (r: usize)
        ensures
            r == self.entries().len(),
    {
        self.entries.len()
    }

    /// Puts `image` under `name`, replacing the image that had that name.
    pub fn insert(&mut self, name: String, image: Image)
        requires
            old(self).wf(),
        ensures
            final(self).wf(),
            has_name(old(self).entries(), name@) ==> final(self).entries() == old(
                self,
            ).entries().update(index_of_name(old(self).entries(), name@), (name, image)),
            !has_name(old(self).entries(), name@) ==> final(self).entries() == old(
                self,
            ).entries().push((name, image)),
    {
        let ghost prev = self.entries@;
        let ghost key = name@;
        match find_image(&self.entries, &name) {
            Some(j) => {
                self.entries.set(j, (name, image));
                assert forall|a: int, b: int|
                    0 <= a < self.entries.len() && 0 <= b < self.entries.len() && #[trigger] name_of(
                        self.entries@,
                        a,
                    ) == #[trigger] name_of(self.entries@, b) implies a == b by {
                    assert(name_of(self.entries@, a) == name_of(prev, a));
                    assert(name_of(self.entries@, b) == name_of(prev, b));
                }
            },
            None => {
                self.entries.push((name, image));
                assert forall|a: int, b: int|
                    0 <= a < self.entries.len() && 0 <= b < self.entries.len() && #[trigger] name_of(
                        self.entries@,
                        a,
                    ) == #[trigger] name_of(self.entries@, b) implies a == b by {
                    if a < prev.len() {
                        assert(name_of(self.entries@, a) == name_of(prev, a));
                    }
                    if b < prev.len() {
                        assert(name_of(self.entries@, b) == name_of(prev, b));
                    }
                }
            },
        }
    }

    /// The image called `name`, if there is one.
    pub fn get(&self, name: &String) -> (r: Option<&Image>)
        requires
            self.wf(),
        ensures
            r is Some <==> has_name(self.entries(), name@),
            r matches Some(i) ==> *i == self.entries()[index_of_name(self.entries(), name@)].1,
    {
        match find_image(&self.entries, name) {
            Some(j) => Some(&self.entries[j].1),
            None => None,
        }
    }

    /// Whether any image of the set is a secure one.
    pub fn any_secure(&self) -> (r: bool)
        ensures
            r == has_secure(self.entries()),
    {
        any_secure_entry(&self.entries)
    }
}

/// Turns a set of images into the order in which they are built: every
/// dependency, direct or transitive, strictly before each image that needs
/// it. Fails where an image lists a dependency that names no image, where
/// the dependencies form a cycle, or where the set is too large to index.
pub fn resolve_build_order(images: &ImageSet) -> (r: Result<Vec<String>, ResolveError>)
    requires
        images.wf(),
    ensures
        resolved(images.entries(), r),
{
    resolve_entries(&images.entries)
}

} // verus!

verus! {

/// For every set of uniquely named images whose dependencies are all known
/// and acyclic, resolving succeeds, and the order holds every image once,
/// with each dependency, direct or transitive, strictly before each image
/// that needs it. The order is `build_order_spec` of the set: resolving the
/// same set again gives the same order.
pub proof fn lemma_acyclic_sets_resolve(
    s: Seq<(String, Image)>,
    r: Result<Vec<String>, ResolveError>,
)
    requires
        names_unique(s),
        fits_graph(s),
        deps_known(s),
        !has_cycle(build_edges(s)),
        resolved(s, r),
    ensures
        r is Ok,
        r matches Ok(order) ==> {
            &&& names_view(order@) == build_order_spec(s)
            &&& names_view(order@).no_duplicates()
            &&& order.len() == s.len()
            &&& forall|i: int, k: int|
                0 <= i < s.len() && 0 <= k < deps_of(s, i).len() ==> before(
                    names_view(order@),
                    #[trigger] deps_of(s, i)[k],
                    name_of(s, i),
                )
            &&& forall|p: Seq<int>|
                #[trigger] is_path(build_edges(s), p) ==> before(
                    names_view(order@),
                    name_of(s, p[0]),
                    name_of(s, p[p.len() - 1]),
                )
        },
{
}

/// Resolving a set twice gives the same result: the same order, or a
/// failure both times.
pub proof fn lemma_resolution_is_deterministic(
    s: Seq<(String, Image)>,
    r1: Result<Vec<String>, ResolveError>,
    r2: Result<Vec<String>, ResolveError>,
)
    requires
        resolved(s, r1),
        resolved(s, r2),
    ensures
        r1 is Ok <==> r2 is Ok,
        r1 is Ok ==> names_view(r1->Ok_0@) == names_view(r2->Ok_0@),
        r1 matches Err(ResolveError::CyclicDependency { .. }) <==> r2 matches Err(
            ResolveError::CyclicDependency { .. },
        ),
{
}

/// A set small enough to index whose dependencies are known but form a
/// cycle fails with `CyclicDependency`, naming every image that lies on a
/// cycle; a set with a dependency that names no image fails with
/// `UnknownDependency`.
pub proof fn lemma_bad_sets_fail(s: Seq<(String, Image)>, r: Result<Vec<String>, ResolveError>)
    requires
        names_unique(s),
        resolved(s, r),
    ensures
        fits_graph(s) && deps_known(s) && has_cycle(build_edges(s)) ==> r matches Err(
            ResolveError::CyclicDependency { .. },
        ),
        r matches Err(ResolveError::CyclicDependency { images: stuck }) ==> forall|v: int|
            0 <= v < s.len() && #[trigger] on_cycle(build_edges(s), v) ==> names_listed(
                stuck@,
                name_of(s, v),
            ),
        !deps_known(s) ==> r matches Err(ResolveError::UnknownDependency { .. }),
{
}

} // verus!
