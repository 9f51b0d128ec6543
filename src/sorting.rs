use crate::repo::{repo_views, Repo, RepoV, Repos};
use crate::text::{join, joined, pieces, split_on, views};
use vstd::prelude::*;
use vstd::string::*;

verus! {

broadcast use vstd::seq_lib::group_to_multiset_ensures;

/// `a` comes no later than `b` in lexicographic order of characters.
pub open spec fn lex_le(a: Seq<char>, b: Seq<char>) -> bool
    decreases a.len(),
{
    if a.len() == 0 {
        true
    } else if b.len() == 0 {
        false
    } else if (a[0] as u32) < (b[0] as u32) {
        true
    } else if (a[0] as u32) > (b[0] as u32) {
        false
    } else {
        lex_le(a.drop_first(), b.drop_first())
    }
}

/// Records ordered by name.
pub open spec fn sorted_by_name(rs: Seq<RepoV>) -> bool {
    forall|i: int, j: int| 0 <= i < j < rs.len() ==> lex_le(#[trigger] rs[i].name, #[trigger] rs[j].name)
}

/// Any two names are ordered one way or the other.
pub proof fn lemma_lex_total(a: Seq<char>, b: Seq<char>)
    ensures
        lex_le(a, b) || lex_le(b, a),
    decreases a.len(),
{
    if a.len() > 0 && b.len() > 0 && (a[0] as u32) == (b[0] as u32) {
        lemma_lex_total(a.drop_first(), b.drop_first());
    }
}

/// The order of names is transitive.
pub proof fn lemma_lex_trans(a: Seq<char>, b: Seq<char>, c: Seq<char>)
    requires
        lex_le(a, b),
        lex_le(b, c),
    ensures
        lex_le(a, c),
    decreases a.len(),
{
    if a.len() > 0 && b.len() > 0 && c.len() > 0 && (a[0] as u32) == (b[0] as u32) && (b[0] as u32)
        == (c[0] as u32) {
        lemma_lex_trans(a.drop_first(), b.drop_first(), c.drop_first());
    }
}

/// Whether `a` comes no later than `b`, comparing characters.
pub fn name_le(a: &str, b: &str) -> (r: bool)
    ensures
        r == lex_le(a@, b@),
{
    let n = a.unicode_len();
    let m = b.unicode_len();
    let mut i: usize = 0;
    assert(a@.subrange(0, n as int) =~= a@);
    assert(b@.subrange(0, m as int) =~= b@);
    while i < n && i < m && a.get_char(i) == b.get_char(i)
        invariant
            n == a@.len(),
            m == b@.len(),
            i <= n,
            i <= m,
            lex_le(a@, b@) == lex_le(a@.subrange(i as int, n as int), b@.subrange(i as int, m as int)),
        decreases n - i,
    {
        assert(a@.subrange(i + 1, n as int) =~= a@.subrange(i as int, n as int).drop_first());
        assert(b@.subrange(i + 1, m as int) =~= b@.subrange(i as int, m as int).drop_first());
        i = i + 1;
    }
    if i == n {
        true
    } else if i == m {
        false
    } else {
        (a.get_char(i) as u32) < (b.get_char(i) as u32)
    }
}

/// A sorting pass over an index.
pub trait Sort {
    /// The order this pass leaves the records in.
    spec fn orders(&self, rs: Seq<RepoV>) -> bool;

    /// Reorders the records; the records themselves are kept.
    fn sort(&mut self, repos: Repos) -> (r: Repos)
        requires
            repos.wf(),
        ensures
            r.wf(),
            r@.to_multiset() == repos@.to_multiset(),
            old(self).orders(r@),
    ;
}

/// Orders records by name.
pub struct AlphabeticalSorter;

impl Sort for AlphabeticalSorter {
    open spec fn orders(&self, rs: Seq<RepoV>) -> bool {
        sorted_by_name(rs)
    }

    fn sort(&mut self, repos: Repos) -> (r: Repos) {
        sort_by_name(repos)
    }
}

/// The records of `repos` ordered by name; records with equal names keep
/// their relative order.
pub fn sort_by_name(repos: Repos) -> (r: Repos)
    requires
        repos.wf(),
    ensures
        r.wf(),
        r@.to_multiset() == repos@.to_multiset(),
        sorted_by_name(r@),
{
    let ghost all = repos@;
    let mut rest: Vec<Repo> = repos.repos;
    let mut out: Vec<Repo> = Vec::new();
    assert(repo_views(out@) =~= Seq::<RepoV>::empty());
    while rest.len() > 0
        invariant
            repo_views(out@).to_multiset().add(repo_views(rest@).to_multiset()) == all.to_multiset(),
            sorted_by_name(repo_views(out@)),
            forall|k: int| 0 <= k < out@.len() ==> (#[trigger] out@[k]).wf(),
            forall|k: int| 0 <= k < rest@.len() ==> (#[trigger] rest@[k]).wf(),
        decreases rest@.len(),
    {
        let ghost rest0 = rest@;
        let x = rest.pop().unwrap();
        assert(repo_views(rest0) =~= repo_views(rest@).push(x@));
        assert(x.wf()) by {
            assert(rest0[rest0.len() - 1] == x);
        }
        let mut p: usize = 0;
        while p < out.len() && !name_le(x.name.as_str(), out[p].name.as_str())
            invariant
                p <= out@.len(),
                forall|k: int| 0 <= k < p ==> !lex_le(x@.name, #[trigger] out@[k]@.name),
            decreases out@.len() - p,
        {
            p = p + 1;
        }
        let ghost outv = repo_views(out@);
        let ghost xv = x@;
        out.insert(p, x);
        assert(repo_views(out@) =~= outv.insert(p as int, xv));
        proof {
            let nv = repo_views(out@);
            assert forall|i: int, j: int| 0 <= i < j < nv.len() implies lex_le(#[trigger] nv[i].name, #[trigger] nv[j].name) by {
                if j < p {
                    assert(nv[i] == outv[i] && nv[j] == outv[j]);
                } else if j == p {
                    assert(!lex_le(xv.name, outv[i].name));
                    lemma_lex_total(xv.name, outv[i].name);
                } else if i == p {
                    assert(nv[j] == outv[j - 1]);
                    if j - 1 > p {
                        assert(lex_le(outv[p as int].name, outv[j - 1].name));
                    }
                    assert(lex_le(xv.name, outv[p as int].name));
                    if j - 1 > p {
                        lemma_lex_trans(xv.name, outv[p as int].name, outv[j - 1].name);
                    }
                } else if i < p {
                    assert(nv[i] == outv[i] && nv[j] == outv[j - 1]);
                } else {
                    assert(nv[i] == outv[i - 1] && nv[j] == outv[j - 1]);
                }
            }
            vstd::seq_lib::to_multiset_insert(outv, p as int, xv);
            vstd::seq_lib::to_multiset_build(repo_views(rest@), xv);
            assert(nv.to_multiset().add(repo_views(rest@).to_multiset()) =~= all.to_multiset());
        }
    }
    assert(repo_views(rest@) =~= Seq::<RepoV>::empty());
    assert(repo_views(out@).to_multiset().add(repo_views(rest@).to_multiset()) =~= repo_views(out@).to_multiset());
    Repos::new(out)
}

/// Direction of an edge as seen from the node that stores it.
#[derive(Debug, Clone, Copy, PartialEq, Eq, Hash)]
pub enum Direction {
    Incoming,
    Outgoing,
}

/// A neighbour of a node in a path tree.
#[derive(Debug, Hash, Eq, PartialEq)]
pub struct NodeEdge {
    pub name: String,
    pub direction: Direction,
}

#[verifier::external_type_specification]
#[verifier::external_body]
#[verifier::reject_recursive_types(K)]
#[verifier::reject_recursive_types(V)]
#[verifier::reject_recursive_types(S)]
pub struct ExIndexMap<K, V, S>(indexmap::IndexMap<K, V, S>);

#[verifier::external_type_specification]
#[verifier::external_body]
#[verifier::reject_recursive_types(T)]
#[verifier::reject_recursive_types(S)]
pub struct ExIndexSet<T, S>(indexmap::IndexSet<T, S>);

/// The keys of a node map, in insertion order.
pub uninterp spec fn node_names(m: indexmap::IndexMap<String, indexmap::IndexSet<NodeEdge>>) -> Seq<Seq<char>>;

/// The pairs of an edge set, in insertion order.
pub uninterp spec fn edge_pairs(s: indexmap::IndexSet<(String, String)>) -> Seq<(Seq<char>, Seq<char>)>;

/// `old` with each item of `new` appended, in order, unless already there:
/// what an insertion-ordered set holds after inserting `new`.
pub open spec fn inserted_all<A>(old: Seq<A>, new: Seq<A>) -> Seq<A>
    decreases new.len(),
{
    if new.len() == 0 {
        old
    } else {
        let m = inserted_all(old, new.drop_last());
        if m.contains(new.last()) {
            m
        } else {
            m.push(new.last())
        }
    }
}

/// Relies on `IndexMap::with_capacity`: a map with no keys.
#[verifier::external_body]
fn empty_node_map(n: usize) -> (r: indexmap::IndexMap<String, indexmap::IndexSet<NodeEdge>>)
    ensures
        node_names(r) == Seq::<Seq<char>>::empty(),
{
    indexmap::IndexMap::with_capacity(n)
}

/// Relies on `IndexSet::new`: a set with no items.
#[verifier::external_body]
fn empty_edge_set() -> (r: indexmap::IndexSet<(String, String)>)
    ensures
        edge_pairs(r) == Seq::<(Seq<char>, Seq<char>)>::empty(),
{
    indexmap::IndexSet::new()
}

/// Relies on `IndexSet::insert`: a pair not yet present is appended; returns
/// whether it was new.
#[verifier::external_body]
fn insert_edge(s: &mut indexmap::IndexSet<(String, String)>, a: String, b: String) -> (r: bool)
    ensures
        r == !edge_pairs(*old(s)).contains((a@, b@)),
        edge_pairs(*final(s)) == inserted_all(edge_pairs(*old(s)), seq![(a@, b@)]),
{
    s.insert((a, b))
}

/// Relies on `IndexMap::entry` and `Entry::or_insert`: the key gets an empty
/// neighbour set unless it is present already.
#[verifier::external_body]
fn ensure_node(m: &mut indexmap::IndexMap<String, indexmap::IndexSet<NodeEdge>>, key: String)
    ensures
        node_names(*final(m)) == inserted_all(node_names(*old(m)), seq![key@]),
{
    m.entry(key).or_insert(indexmap::IndexSet::new());
}

/// Relies on `IndexMap::entry`, `Entry::or_insert` and `IndexSet::insert`:
/// the key is added as by `ensure_node` and `e` joins its neighbour set.
#[verifier::external_body]
fn link_node(m: &mut indexmap::IndexMap<String, indexmap::IndexSet<NodeEdge>>, key: String, e: NodeEdge)
    ensures
        node_names(*final(m)) == inserted_all(node_names(*old(m)), seq![key@]),
{
    m.entry(key).or_insert(indexmap::IndexSet::with_capacity(1)).insert(e);
}

/// Directed edges between path prefixes, and each node's neighbours.
#[derive(Debug)]
pub struct PathTree {
    nodes: indexmap::IndexMap<String, indexmap::IndexSet<NodeEdge>>,
    edges: indexmap::IndexSet<(String, String)>,
}

impl PathTree {
    /// Node names, in order of first appearance.
    pub closed spec fn node_list(&self) -> Seq<Seq<char>> {
        node_names(self.nodes)
    }

    /// Edges, in order of first insertion.
    pub closed spec fn edge_list(&self) -> Seq<(Seq<char>, Seq<char>)> {
        edge_pairs(self.edges)
    }

    /// An empty tree with room for `nodes` nodes.
    pub fn with_capacity(nodes: usize) -> (r: Self)
        ensures
            r.node_list() == Seq::<Seq<char>>::empty(),
            r.edge_list() == Seq::<(Seq<char>, Seq<char>)>::empty(),
    {
        PathTree { nodes: empty_node_map(nodes), edges: empty_edge_set() }
    }

    /// Adds a node without neighbours unless it is there.
    pub fn add_node(&mut self, node: String)
        ensures
            final(self).node_list() == inserted_all(old(self).node_list(), seq![node@]),
            final(self).edge_list() == old(self).edge_list(),
    {
        ensure_node(&mut self.nodes, node);
    }

    /// Adds the edge `node_a -> node_b`: the pair joins the edges, both nodes
    /// join the nodes, `node_b` becomes an outgoing neighbour of `node_a` and
    /// `node_a` an incoming one of `node_b`.
    pub fn add_edge(&mut self, node_a: String, node_b: String)
        ensures
            final(self).edge_list() == inserted_all(old(self).edge_list(), seq![(node_a@, node_b@)]),
            final(self).node_list() == inserted_all(old(self).node_list(), seq![node_a@, node_b@]),
    {
        insert_edge(&mut self.edges, node_a.clone(), node_b.clone());
        let out = NodeEdge { name: node_b.clone(), direction: Direction::Outgoing };
        link_node(&mut self.nodes, node_a.clone(), out);
        let inc = NodeEdge { name: node_a.clone(), direction: Direction::Incoming };
        link_node(&mut self.nodes, node_b, inc);
        proof {
            let o = old(self).node_list();
            assert(seq![node_a@, node_b@].drop_last() =~= seq![node_a@]);
            assert(seq![node_a@].drop_last() =~= Seq::<Seq<char>>::empty());
            let x = inserted_all(o, seq![node_a@]);
            assert(seq![node_b@].drop_last() =~= Seq::<Seq<char>>::empty());
            assert(inserted_all(x, Seq::<Seq<char>>::empty()) == x);
            assert(seq![node_a@, node_b@].last() == node_b@);
            assert(inserted_all(x, seq![node_b@]) == inserted_all(o, seq![node_a@, node_b@]));
        }
    }

    pub fn nodes(&self) -> (r: &indexmap::IndexMap<String, indexmap::IndexSet<NodeEdge>>)
        ensures
            node_names(*r) == self.node_list(),
    {
        &self.nodes
    }

    pub fn edges(&self) -> (r: &indexmap::IndexSet<(String, String)>)
        ensures
            edge_pairs(*r) == self.edge_list(),
    {
        &self.edges
    }
}

/// Inserting one more item is inserting the rest, then that item.
pub proof fn lemma_inserted_push<A>(o: Seq<A>, s: Seq<A>, x: A)
    ensures
        inserted_all(o, s.push(x)) == inserted_all(inserted_all(o, s), seq![x]),
{
    let m = inserted_all(o, s);
    assert(s.push(x).drop_last() =~= s);
    assert(s.push(x).last() == x);
    assert(seq![x].drop_last() =~= Seq::<A>::empty());
    assert(seq![x].last() == x);
    assert(inserted_all(m, Seq::<A>::empty()) == m);
    assert(inserted_all(m, seq![x]) == if m.contains(x) {
        m
    } else {
        m.push(x)
    });
}

/// The name of the tree node for the first `i` components of `c`.
pub open spec fn prefix_name(c: Seq<Seq<char>>, i: int) -> Seq<char> {
    joined(c.subrange(0, i), "/"@)
}

/// The edges that the path with components `c` adds, parent to child.
pub open spec fn path_edges(c: Seq<Seq<char>>) -> Seq<(Seq<char>, Seq<char>)> {
    Seq::new(c.len(), |i: int| (prefix_name(c, i), prefix_name(c, i + 1)))
}

/// The node names that the first `n` edges of the path with components `c`
/// touch, parent then child, in order.
pub open spec fn path_nodes(c: Seq<Seq<char>>, n: nat) -> Seq<Seq<char>>
    decreases n,
{
    if n == 0 {
        Seq::empty()
    } else {
        path_nodes(c, (n - 1) as nat).push(prefix_name(c, n - 1)).push(prefix_name(c, n as int))
    }
}

impl PathTree {
    /// Adds the chain of edges from the root through each prefix of `path`
    /// (its non-empty `/`-separated components) to the whole path.
    pub fn add_path(&mut self, path: &str)
        ensures
            final(self).edge_list() == inserted_all(old(self).edge_list(), path_edges(pieces(path@, '/'))),
            final(self).node_list() == inserted_all(
                old(self).node_list(),
                path_nodes(pieces(path@, '/'), pieces(path@, '/').len()),
            ),
    {
        let comps = split_on(path, '/');
        let ghost c = views(comps@);
        let mut prefix: Vec<String> = Vec::new();
        let mut i: usize = 0;
        assert(path_edges(c).subrange(0, 0) =~= Seq::<(Seq<char>, Seq<char>)>::empty());
        assert(views(prefix@) =~= c.subrange(0, 0));
        while i < comps.len()
            invariant
                c == views(comps@),
                i <= comps@.len(),
                views(prefix@) == c.subrange(0, i as int),
                self.edge_list() == inserted_all(old(self).edge_list(), path_edges(c).subrange(0, i as int)),
                self.node_list() == inserted_all(old(self).node_list(), path_nodes(c, i as nat)),
            decreases comps@.len() - i,
        {
            let parent = join(&prefix, "/");
            let ghost pre = prefix@;
            prefix.push(comps[i].clone());
            assert(views(prefix@) =~= c.subrange(0, i + 1));
            let node = join(&prefix, "/");
            let ghost e0 = self.edge_list();
            let ghost n0 = self.node_list();
            self.add_edge(parent, node);
            proof {
                let pe = path_edges(c);
                assert(pe.subrange(0, i + 1) =~= pe.subrange(0, i as int).push((prefix_name(c, i as int), prefix_name(c, i + 1))));
                lemma_inserted_push(old(self).edge_list(), pe.subrange(0, i as int), (prefix_name(c, i as int), prefix_name(c, i + 1)));
                let p = prefix_name(c, i as int);
                let n = prefix_name(c, i + 1);
                let o = old(self).node_list();
                let s0 = path_nodes(c, i as nat);
                assert(path_nodes(c, (i + 1) as nat) == s0.push(p).push(n));
                lemma_inserted_push(o, s0.push(p), n);
                lemma_inserted_push(o, s0, p);
                lemma_inserted_push(inserted_all(o, s0), seq![p], n);
                assert(seq![p].push(n) =~= seq![p, n]);
            }
            i = i + 1;
        }
        assert(path_edges(c).subrange(0, i as int) =~= path_edges(c));
    }
}

/// A sorting pass that first records the repositories' paths in a tree; it
/// leaves the order as it is.
pub struct TreeSorter {
    pub tree: PathTree,
}

impl Sort for TreeSorter {
    open spec fn orders(&self, rs: Seq<RepoV>) -> bool {
        true
    }

    fn sort(&mut self, repos: Repos) -> (r: Repos) {
        let mut i: usize = 0;
        while i < repos.repos.len()
            invariant
                i <= repos.repos@.len(),
            decreases repos.repos@.len() - i,
        {
            self.tree.add_path(repos.repos[i].path.as_str());
            i = i + 1;
        }
        repos
    }
}

} // verus!
