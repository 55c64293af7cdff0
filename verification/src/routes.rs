//! The route trie builder: merges flat route path strings into a
//! shared-prefix tree.  Each path is split on `/` (empty segments
//! discarded) and folded right-to-left into a branchless chain ending in a
//! leaf; the chains are then merged into one trie, sharing nodes whose
//! segment names match exactly.

use vstd::prelude::*;

use crate::types::{
    frag_view, frags_view, node_view, NodeV, Route, RouteFragment, RouteFragmentLeafData,
    RouteFragmentNodeData, TrieV,
};

verus! {

// ===========================================================================
// Path splitting
// ===========================================================================

/// The index of the first `/` at or after `i`, or the length if none.
pub open spec fn next_slash(p: Seq<char>, i: int) -> int
    decreases p.len() - i,
{
    if i >= p.len() {
        p.len() as int
    } else if p[i] == '/' {
        i
    } else {
        next_slash(p, i + 1)
    }
}

proof fn lemma_next_slash(p: Seq<char>, i: int)
    requires
        0 <= i <= p.len(),
    ensures
        i <= next_slash(p, i) <= p.len(),
        forall|k: int| i <= k < next_slash(p, i) ==> p[k] != '/',
        next_slash(p, i) < p.len() ==> p[next_slash(p, i)] == '/',
    decreases p.len() - i,
{
    if i < p.len() && p[i] != '/' {
        lemma_next_slash(p, i + 1);
    }
}

/// The non-empty segments of `p[i..]`, split on `/`.
pub open spec fn split_from(p: Seq<char>, i: int) -> Seq<Seq<char>>
    decreases p.len() - i,
    when i >= 0
    via split_from_decreases
{
    if i >= p.len() {
        seq![]
    } else {
        let j = next_slash(p, i);
        let seg = p.subrange(i, j);
        if j >= p.len() {
            if seg.len() == 0 {
                seq![]
            } else {
                seq![seg]
            }
        } else {
            let rest = split_from(p, j + 1);
            if seg.len() == 0 {
                rest
            } else {
                seq![seg] + rest
            }
        }
    }
}

#[via_fn]
proof fn split_from_decreases(p: Seq<char>, i: int) {
    if 0 <= i < p.len() {
        lemma_next_slash(p, i);
    }
}

/// The segments of a whole path.
pub open spec fn split_segments(p: Seq<char>) -> Seq<Seq<char>> {
    split_from(p, 0)
}

// ===========================================================================
// Segment classification and trimming
// ===========================================================================

/// A segment is a parameter if it is delimited by `{}` or prefixed with
/// `:`.
pub open spec fn seg_is_param(seg: Seq<char>) -> bool {
    seg.len() > 0 && (seg[0] == ':' || (seg[0] == '{' && seg.last() == '}'))
}

/// The segment with every leading and trailing occurrence of `c` removed.
pub open spec fn trim_char(s: Seq<char>, c: char) -> Seq<char>
    decreases s.len(),
{
    if s.len() > 0 && s[0] == c {
        trim_char(s.drop_first(), c)
    } else if s.len() > 0 && s.last() == c {
        trim_char(s.drop_last(), c)
    } else {
        s
    }
}

/// The display name of a segment: its parameter delimiters stripped.
pub open spec fn seg_name(seg: Seq<char>) -> Seq<char> {
    trim_char(trim_char(trim_char(seg, ':'), '{'), '}')
}

// ===========================================================================
// Chains and merging
// ===========================================================================

/// The branchless chain of one route: a node per segment, ending in a leaf
/// carrying the route index.
pub open spec fn chain_of(segs: Seq<Seq<char>>, idx: int) -> TrieV
    decreases segs.len(),
{
    if segs.len() == 0 {
        TrieV::Leaf(idx)
    } else {
        TrieV::Node(
            NodeV {
                name: seg_name(segs[0]),
                is_param: seg_is_param(segs[0]),
                children: seq![chain_of(segs.drop_first(), idx)],
            },
        )
    }
}

/// Whether a tree is a branchless chain: every inner node has exactly one
/// child.
pub open spec fn is_branchless(t: TrieV) -> bool
    decreases t,
{
    match t {
        TrieV::Leaf(_) => true,
        TrieV::Node(n) => n.children.len() == 1 && is_branchless(n.children[0]),
    }
}

proof fn lemma_chain_branchless(segs: Seq<Seq<char>>, idx: int)
    ensures
        is_branchless(chain_of(segs, idx)),
    decreases segs.len(),
{
    if segs.len() > 0 {
        lemma_chain_branchless(segs.drop_first(), idx);
    }
}

/// The index of the first child that is a `Node` named `name`, or -1.
pub open spec fn find_match(children: Seq<TrieV>, name: Seq<char>) -> int
    decreases children.len(),
{
    if children.len() == 0 {
        -1
    } else {
        let head_matches = match children[0] {
            TrieV::Node(n) => n.name == name,
            TrieV::Leaf(_) => false,
        };
        if head_matches {
            0
        } else {
            let r = find_match(children.drop_first(), name);
            if r < 0 {
                -1
            } else {
                r + 1
            }
        }
    }
}

/// Whether a child is a `Node` named `name`.
pub open spec fn child_matches(t: TrieV, name: Seq<char>) -> bool {
    match t {
        TrieV::Node(n) => n.name == name,
        TrieV::Leaf(_) => false,
    }
}

proof fn lemma_find_match(children: Seq<TrieV>, name: Seq<char>)
    ensures
        find_match(children, name) < 0 ==> forall|k: int|
            0 <= k < children.len() ==> !child_matches(#[trigger] children[k], name),
        find_match(children, name) >= 0 ==> {
            let i = find_match(children, name);
            &&& i < children.len()
            &&& child_matches(children[i], name)
            &&& forall|k: int| 0 <= k < i ==> !child_matches(#[trigger] children[k], name)
        },
    decreases children.len(),
{
    if children.len() > 0 {
        lemma_find_match(children.drop_first(), name);
        let head_matches = child_matches(children[0], name);
        if !head_matches {
            let r = find_match(children.drop_first(), name);
            assert(forall|k: int|
                1 <= k < children.len() ==> children.drop_first()[k - 1] == #[trigger] children[k]);
        }
    }
}

/// Merges one branchless chain into a trie node: walking from the node, a
/// chain segment whose name matches an existing child node descends into
/// it; the first mismatch appends the remaining chain as a new sibling.
pub open spec fn merge_chain(node: NodeV, chain: TrieV) -> NodeV
    decreases chain,
{
    match chain {
        TrieV::Leaf(_) => NodeV {
            name: node.name,
            is_param: node.is_param,
            children: node.children.push(chain),
        },
        TrieV::Node(cn) => {
            let i = find_match(node.children, cn.name);
            if i < 0 {
                NodeV {
                    name: node.name,
                    is_param: node.is_param,
                    children: node.children.push(chain),
                }
            } else {
                match node.children[i] {
                    TrieV::Node(existing) => {
                        if cn.children.len() > 0 {
                            NodeV {
                                name: node.name,
                                is_param: node.is_param,
                                children: node.children.update(
                                    i,
                                    TrieV::Node(merge_chain(existing, cn.children[0])),
                                ),
                            }
                        } else {
                            node
                        }
                    },
                    TrieV::Leaf(_) => node,
                }
            }
        },
    }
}

/// The chain of one route path.
pub open spec fn route_chain(path: Seq<char>, idx: int) -> TrieV {
    chain_of(split_segments(path), idx)
}

/// The empty trie root.
pub open spec fn empty_root() -> NodeV {
    NodeV { name: Seq::empty(), is_param: false, children: Seq::empty() }
}

/// The trie after merging the chains of the first `n` paths, in order.
pub open spec fn trie_rec(paths: Seq<Seq<char>>, n: int) -> NodeV
    decreases n,
{
    if n <= 0 {
        empty_root()
    } else {
        merge_chain(trie_rec(paths, n - 1), route_chain(paths[n - 1], n - 1))
    }
}

/// The paths of a route list.
pub open spec fn paths_of(routes: Seq<Route>) -> Seq<Seq<char>> {
    routes.map_values(|r: Route| r.path@)
}

/// The trie of a route list: the root is a `Node` with the empty segment
/// name, and each route's chain is merged in order.
pub open spec fn trie_spec(paths: Seq<Seq<char>>) -> TrieV {
    TrieV::Node(trie_rec(paths, paths.len() as int))
}

// ===========================================================================
// Laws of the trie builder
// ===========================================================================

/// The children of the node where two route chains have been merged: `k`
/// shared nodes (named after the first route's segments), then the two
/// remaining chains side by side.
pub open spec fn shared_tree(
    s1: Seq<Seq<char>>,
    s2: Seq<Seq<char>>,
    idx1: int,
    idx2: int,
    k: int,
) -> Seq<TrieV>
    decreases k,
{
    if k <= 0 {
        seq![chain_of(s1, idx1), chain_of(s2, idx2)]
    } else {
        seq![
            TrieV::Node(
                NodeV {
                    name: seg_name(s1[0]),
                    is_param: seg_is_param(s1[0]),
                    children: shared_tree(s1.drop_first(), s2.drop_first(), idx1, idx2, k - 1),
                },
            ),
        ]
    }
}

proof fn lemma_merge_diverge(
    nm: Seq<char>,
    ip: bool,
    s1: Seq<Seq<char>>,
    s2: Seq<Seq<char>>,
    idx1: int,
    idx2: int,
    k: int,
)
    requires
        0 <= k < s1.len(),
        k < s2.len(),
        forall|t: int| 0 <= t < k ==> seg_name(#[trigger] s1[t]) == seg_name(s2[t]),
        seg_name(s1[k]) != seg_name(s2[k]),
    ensures
        merge_chain(
            NodeV { name: nm, is_param: ip, children: seq![chain_of(s1, idx1)] },
            chain_of(s2, idx2),
        ) == (NodeV { name: nm, is_param: ip, children: shared_tree(s1, s2, idx1, idx2, k) }),
    decreases k,
{
    let c1 = chain_of(s1, idx1);
    let c2 = chain_of(s2, idx2);
    let node = NodeV { name: nm, is_param: ip, children: seq![c1] };
    let children = node.children;
    assert(children[0] == c1);
    if k == 0 {
        assert(!child_matches(c1, seg_name(s2[0])));
        assert(children.drop_first() =~= Seq::<TrieV>::empty());
        assert(find_match(Seq::<TrieV>::empty(), seg_name(s2[0])) == -1);
        assert(find_match(children, seg_name(s2[0])) == -1);
        assert(children.push(c2) =~= seq![c1, c2]);
        assert(merge_chain(node, c2) =~= NodeV {
            name: nm,
            is_param: ip,
            children: shared_tree(s1, s2, idx1, idx2, k),
        });
    } else {
        assert(seg_name(s1[0]) == seg_name(s2[0]));
        assert(child_matches(c1, seg_name(s2[0])));
        assert(find_match(children, seg_name(s2[0])) == 0);
        let s1d = s1.drop_first();
        let s2d = s2.drop_first();
        assert(forall|t: int| 0 <= t < k - 1 ==> #[trigger] s1d[t] == s1[t + 1]);
        assert(forall|t: int| 0 <= t < k - 1 ==> #[trigger] s2d[t] == s2[t + 1]);
        assert(s1d[k - 1] == s1[k]);
        assert(s2d[k - 1] == s2[k]);
        lemma_merge_diverge(seg_name(s1[0]), seg_is_param(s1[0]), s1d, s2d, idx1, idx2, k - 1);
        let c1n = NodeV {
            name: seg_name(s1[0]),
            is_param: seg_is_param(s1[0]),
            children: seq![chain_of(s1d, idx1)],
        };
        assert(c1 == TrieV::Node(c1n));
        let merged = merge_chain(c1n, chain_of(s2d, idx2));
        assert(merged == (NodeV {
            name: seg_name(s1[0]),
            is_param: seg_is_param(s1[0]),
            children: shared_tree(s1d, s2d, idx1, idx2, k - 1),
        }));
        assert(children.update(0, TrieV::Node(merged)) =~= seq![TrieV::Node(merged)]);
        assert(merge_chain(node, c2) =~= NodeV {
            name: nm,
            is_param: ip,
            children: shared_tree(s1, s2, idx1, idx2, k),
        });
    }
}

/// Shared-prefix law: two route paths whose segment lists agree on the
/// names of their first `k` segments and then diverge produce a trie that
/// descends through exactly `k` shared nodes before forking into the two
/// remaining chains as sibling branches.
pub proof fn lemma_shared_prefix(p1: Seq<char>, p2: Seq<char>, k: int)
    requires
        0 <= k < split_segments(p1).len(),
        k < split_segments(p2).len(),
        forall|t: int|
            0 <= t < k ==> seg_name(#[trigger] split_segments(p1)[t]) == seg_name(
                split_segments(p2)[t],
            ),
        seg_name(split_segments(p1)[k]) != seg_name(split_segments(p2)[k]),
    ensures
        trie_spec(seq![p1, p2]) == TrieV::Node(
            NodeV {
                name: Seq::empty(),
                is_param: false,
                children: shared_tree(split_segments(p1), split_segments(p2), 0, 1, k),
            },
        ),
{
    let paths = seq![p1, p2];
    let s1 = split_segments(p1);
    let s2 = split_segments(p2);
    assert(paths[0] == p1);
    assert(paths[1] == p2);
    let c1 = chain_of(s1, 0);
    assert(trie_rec(paths, 0) == empty_root());
    assert(s1.len() > 0);
    assert(c1 is Node);
    assert(find_match(Seq::<TrieV>::empty(), c1->Node_0.name) == -1);
    assert(Seq::<TrieV>::empty().push(c1) =~= seq![c1]);
    assert(trie_rec(paths, 1) =~= NodeV {
        name: Seq::empty(),
        is_param: false,
        children: seq![c1],
    });
    lemma_merge_diverge(Seq::empty(), false, s1, s2, 0, 1, k);
    assert(trie_rec(paths, 2) == merge_chain(trie_rec(paths, 1), route_chain(p2, 1)));
}

/// How many leaves of a tree carry the route index `idx`.
pub open spec fn leaf_count(t: TrieV, idx: int) -> nat
    decreases t,
{
    match t {
        TrieV::Leaf(i) => if i == idx {
            1nat
        } else {
            0nat
        },
        TrieV::Node(n) => leaf_count_children(n.children, idx),
    }
}

/// How many leaves below a child list carry the route index `idx`.
pub open spec fn leaf_count_children(cs: Seq<TrieV>, idx: int) -> nat
    decreases cs,
{
    if cs.len() == 0 {
        0nat
    } else {
        leaf_count_children(cs.drop_last(), idx) + leaf_count(cs.last(), idx)
    }
}

proof fn lemma_chain_leaf_count(segs: Seq<Seq<char>>, i: int, idx: int)
    ensures
        leaf_count(chain_of(segs, i), idx) == if i == idx {
            1nat
        } else {
            0nat
        },
    decreases segs.len(),
{
    if segs.len() > 0 {
        lemma_chain_leaf_count(segs.drop_first(), i, idx);
        let children = seq![chain_of(segs.drop_first(), i)];
        assert(children.drop_last() =~= Seq::<TrieV>::empty());
        assert(leaf_count_children(Seq::<TrieV>::empty(), idx) == 0);
    }
}

proof fn lemma_update_leaf_count(cs: Seq<TrieV>, i: int, x: TrieV, idx: int)
    requires
        0 <= i < cs.len(),
    ensures
        leaf_count_children(cs.update(i, x), idx) + leaf_count(cs[i], idx)
            == leaf_count_children(cs, idx) + leaf_count(x, idx),
    decreases cs.len(),
{
    let u = cs.update(i, x);
    if i == cs.len() - 1 {
        assert(u.drop_last() =~= cs.drop_last());
        assert(u.last() == x);
    } else {
        assert(u.drop_last() =~= cs.drop_last().update(i, x));
        assert(u.last() == cs.last());
        assert(cs.drop_last()[i] == cs[i]);
        lemma_update_leaf_count(cs.drop_last(), i, x, idx);
    }
}

proof fn lemma_merge_leaf_count(node: NodeV, chain: TrieV, idx: int)
    requires
        is_branchless(chain),
    ensures
        leaf_count_children(merge_chain(node, chain).children, idx) == leaf_count_children(
            node.children,
            idx,
        ) + leaf_count(chain, idx),
    decreases chain,
{
    match chain {
        TrieV::Leaf(_) => {
            let pushed = node.children.push(chain);
            assert(pushed.drop_last() =~= node.children);
            assert(pushed.last() == chain);
        },
        TrieV::Node(cn) => {
            let i = find_match(node.children, cn.name);
            if i < 0 {
                let pushed = node.children.push(chain);
                assert(pushed.drop_last() =~= node.children);
                assert(pushed.last() == chain);
            } else {
                lemma_find_match(node.children, cn.name);
                match node.children[i] {
                    TrieV::Node(existing) => {
                        if cn.children.len() > 0 {
                            lemma_merge_leaf_count(existing, cn.children[0], idx);
                            let merged = merge_chain(existing, cn.children[0]);
                            lemma_update_leaf_count(
                                node.children,
                                i,
                                TrieV::Node(merged),
                                idx,
                            );
                            assert(cn.children.drop_last() =~= Seq::<TrieV>::empty());
                            assert(cn.children.last() == cn.children[0]);
                            assert(leaf_count_children(Seq::<TrieV>::empty(), idx) == 0);
                            assert(leaf_count_children(cn.children, idx) == leaf_count(
                                cn.children[0],
                                idx,
                            ));
                        }
                    },
                    TrieV::Leaf(_) => {},
                }
            }
        },
    }
}

proof fn lemma_trie_rec_leaf_count(paths: Seq<Seq<char>>, n: int, idx: int)
    requires
        n <= paths.len(),
    ensures
        leaf_count_children(trie_rec(paths, n).children, idx) == if 0 <= idx < n {
            1nat
        } else {
            0nat
        },
    decreases n,
{
    if n <= 0 {
    } else {
        lemma_trie_rec_leaf_count(paths, n - 1, idx);
        let chain = route_chain(paths[n - 1], n - 1);
        lemma_chain_branchless(split_segments(paths[n - 1]), n - 1);
        lemma_merge_leaf_count(trie_rec(paths, n - 1), chain, idx);
        lemma_chain_leaf_count(split_segments(paths[n - 1]), n - 1, idx);
    }
}

/// Reachability law: in the built trie every original route is reachable
/// by exactly one root-to-leaf path — the leaf carrying route index `idx`
/// appears exactly once when `idx` indexes the path list, and never
/// otherwise.
pub proof fn lemma_each_route_has_one_leaf(paths: Seq<Seq<char>>, idx: int)
    ensures
        leaf_count(trie_spec(paths), idx) == if 0 <= idx < paths.len() {
            1nat
        } else {
            0nat
        },
{
    lemma_trie_rec_leaf_count(paths, paths.len() as int, idx);
}

/// Determinism law: building the trie from route lists with equal path
/// strings yields structurally identical trees, because the builder's
/// result is pinned to `trie_spec` of the paths alone.
pub proof fn lemma_build_deterministic(routes1: Seq<Route>, routes2: Seq<Route>)
    requires
        paths_of(routes1) == paths_of(routes2),
    ensures
        trie_spec(paths_of(routes1)) == trie_spec(paths_of(routes2)),
{
}

// ===========================================================================
// Supporting lemmas
// ===========================================================================

/// `frags_view` maps a fragment list pointwise.
proof fn lemma_frags_view_index(v: Seq<RouteFragment>)
    ensures
        frags_view(v).len() == v.len(),
        forall|i: int| 0 <= i < v.len() ==> frags_view(v)[i] == frag_view(v[i]),
    decreases v,
{
    if v.len() > 0 {
        lemma_frags_view_index(v.drop_last());
    }
}

// ===========================================================================
// Executable splitting and trimming
// ===========================================================================

/// Splits a path on `/`, discarding empty segments.
pub fn split_path(path: &str) -> (r: Vec<String>)
    ensures
        r@.map_values(|s: String| s@) == split_segments(path@),
{
    let n = path.unicode_len();
    let mut out: Vec<String> = Vec::new();
    let mut i: usize = 0;
    proof {
        assert(out@.map_values(|s: String| s@) + split_from(path@, 0) =~= split_from(path@, 0));
    }
    while i < n
        invariant
            n == path@.len(),
            out@.map_values(|s: String| s@) + split_from(path@, i as int) == split_segments(
                path@,
            ),
        decreases n - i,
    {
        let ghost ii = i as int;
        let mut j: usize = i;
        while j < n && path.get_char(j) != '/'
            invariant
                n == path@.len(),
                i <= j <= n,
                forall|k: int| i <= k < j ==> path@[k] != '/',
            decreases n - j,
        {
            j = j + 1;
        }
        proof {
            lemma_next_slash(path@, ii);
            let ns = next_slash(path@, ii);
            assert(ns == j as int) by {
                if ns < j {
                    assert(path@[ns] != '/');
                }
                if ns > j {
                    assert(path@[j as int] != '/');
                }
            }
        }
        let seg = path.substring_char(i, j);
        let ghost before = out@;
        if seg.unicode_len() > 0 {
            out.push(seg.to_owned());
            proof {
                assert(out@.drop_last() =~= before);
                assert(out@.map_values(|s: String| s@) =~= before.map_values(
                    |s: String| s@,
                ).push(seg@));
            }
        }
        if j < n {
            i = j + 1;
        } else {
            i = n;
        }
        proof {
            if j < n {
                assert(out@.map_values(|s: String| s@) + split_from(path@, i as int)
                    =~= before.map_values(|s: String| s@) + split_from(path@, ii));
            } else {
                assert(i as int >= path@.len());
                assert(split_from(path@, i as int) =~= Seq::<Seq<char>>::empty());
                assert(out@.map_values(|s: String| s@) + split_from(path@, i as int)
                    =~= before.map_values(|s: String| s@) + split_from(path@, ii));
            }
        }
    }
    proof {
        assert(split_from(path@, i as int) =~= Seq::<Seq<char>>::empty());
        assert(out@.map_values(|s: String| s@) =~= out@.map_values(|s: String| s@)
            + split_from(path@, i as int));
    }
    out
}

/// Removes every leading and trailing occurrence of `c`.
fn trim_char_str(s: &str, c: char) -> (r: String)
    ensures
        r@ == trim_char(s@, c),
    decreases s@.len(),
{
    let n = s.unicode_len();
    if n > 0 && s.get_char(0) == c {
        let sub = s.substring_char(1, n);
        proof {
            assert(sub@ =~= s@.drop_first());
        }
        trim_char_str(sub, c)
    } else if n > 0 && s.get_char(n - 1) == c {
        let sub = s.substring_char(0, n - 1);
        proof {
            assert(sub@ =~= s@.drop_last());
        }
        trim_char_str(sub, c)
    } else {
        s.to_owned()
    }
}

fn seg_is_param_exec(seg: &str) -> (r: bool)
    ensures
        r == seg_is_param(seg@),
{
    let n = seg.unicode_len();
    if n == 0 {
        false
    } else {
        let c0 = seg.get_char(0);
        c0 == ':' || (c0 == '{' && seg.get_char(n - 1) == '}')
    }
}

fn seg_name_exec(seg: &str) -> (r: String)
    ensures
        r@ == seg_name(seg@),
{
    let t1 = trim_char_str(seg, ':');
    let t2 = trim_char_str(t1.as_str(), '{');
    trim_char_str(t2.as_str(), '}')
}

// ===========================================================================
// Executable chain building and merging
// ===========================================================================

/// Folds the segments of one route right-to-left into a branchless chain
/// ending in a leaf.
fn build_chain(segs: &Vec<String>, idx: usize) -> (r: RouteFragment)
    ensures
        frag_view(r) == chain_of(segs@.map_values(|s: String| s@), idx as int),
{
    let ghost sview = segs@.map_values(|s: String| s@);
    let mut cur = RouteFragment::Leaf(RouteFragmentLeafData { route_idx: idx });
    let mut i: usize = segs.len();
    proof {
        assert(sview.skip(segs@.len() as int).len() == 0);
    }
    while i > 0
        invariant
            i <= segs@.len(),
            sview == segs@.map_values(|s: String| s@),
            frag_view(cur) == chain_of(sview.skip(i as int), idx as int),
        decreases i,
    {
        i = i - 1;
        let name = seg_name_exec(segs[i].as_str());
        let is_param = seg_is_param_exec(segs[i].as_str());
        let prev = cur;
        let ghost prev_v = frag_view(prev);
        let mut children: Vec<RouteFragment> = Vec::new();
        children.push(prev);
        proof {
            assert(children@.drop_last() =~= Seq::<RouteFragment>::empty());
            assert(children@.last() == prev);
            assert(frags_view(Seq::<RouteFragment>::empty()) =~= Seq::<TrieV>::empty());
            assert(frags_view(children@) =~= seq![prev_v]);
        }
        cur = RouteFragment::Node(
            RouteFragmentNodeData { path_fragment_name: name, is_param, children },
        );
        proof {
            assert(sview.skip(i as int)[0] == sview[i as int]);
            assert(sview.skip(i as int).drop_first() =~= sview.skip(i as int + 1));
            assert(sview[i as int] == segs@[i as int]@);
            assert(frag_view(cur) == chain_of(sview.skip(i as int), idx as int));
        }
    }
    proof {
        assert(sview.skip(0) =~= sview);
    }
    cur
}

/// Finds the first child that is a `Node` whose segment name equals
/// `name`.
fn find_child(children: &Vec<RouteFragment>, name: &String) -> (r: Option<usize>)
    ensures
        match r {
            Option::Some(i) => i < children@.len() && find_match(frags_view(children@), name@)
                == i as int,
            Option::None => find_match(frags_view(children@), name@) < 0,
        },
{
    let ghost cv = frags_view(children@);
    proof {
        lemma_frags_view_index(children@);
    }
    let mut k: usize = 0;
    while k < children.len()
        invariant
            k <= children@.len(),
            cv == frags_view(children@),
            forall|t: int| 0 <= t < k ==> !child_matches(#[trigger] cv[t], name@),
        decreases children@.len() - k,
    {
        proof {
            lemma_frags_view_index(children@);
        }
        let is_match = match &children[k] {
            RouteFragment::Node(nd) => nd.path_fragment_name.eq(name),
            RouteFragment::Leaf(_) => false,
        };
        if is_match {
            proof {
                lemma_find_match(cv, name@);
                assert(child_matches(cv[k as int], name@));
                let fm = find_match(cv, name@);
                assert(fm == k as int) by {
                    if fm < 0 || fm > k as int {
                        assert(!child_matches(cv[k as int], name@));
                    }
                }
            }
            return Option::Some(k);
        }
        proof {
            assert(!child_matches(cv[k as int], name@));
        }
        k = k + 1;
    }
    proof {
        lemma_find_match(cv, name@);
        let fm = find_match(cv, name@);
        if fm >= 0 {
            assert(!child_matches(cv[fm], name@));
        }
    }
    Option::None
}

/// Merges one branchless chain into the given trie node.
fn merge_branchless_tree(main_tree: &mut RouteFragmentNodeData, branchless_tree: RouteFragment)
    requires
        is_branchless(frag_view(branchless_tree)),
    ensures
        node_view(*final(main_tree)) == merge_chain(
            node_view(*old(main_tree)),
            frag_view(branchless_tree),
        ),
    decreases branchless_tree,
{
    let ghost chain_v = frag_view(branchless_tree);
    let ghost main0 = node_view(*old(main_tree));
    match branchless_tree {
        RouteFragment::Leaf(leaf) => {
            let ghost before = main_tree.children@;
            main_tree.children.push(RouteFragment::Leaf(leaf));
            proof {
                assert(main_tree.children@.drop_last() =~= before);
                assert(frags_view(main_tree.children@) == frags_view(before).push(chain_v));
                assert(node_view(*main_tree) =~= merge_chain(main0, chain_v));
            }
        },
        RouteFragment::Node(mut bn) => {
            let ghost bn0 = bn;
            let ghost bnv = node_view(bn);
            proof {
                assert(chain_v == TrieV::Node(bnv));
                lemma_frags_view_index(bn.children@);
            }
            match find_child(&main_tree.children, &bn.path_fragment_name) {
                Option::Some(idx) => {
                    let ghost before = main_tree.children@;
                    let ghost cv = frags_view(before);
                    proof {
                        lemma_frags_view_index(before);
                        lemma_find_match(cv, bn.path_fragment_name@);
                    }
                    let child = main_tree.children.remove(idx);
                    let sub = match bn.children.pop() {
                        Option::Some(s) => s,
                        Option::None => RouteFragment::Leaf(RouteFragmentLeafData { route_idx: 0 }),
                    };
                    proof {
                        assert(sub == bn0.children@[0]);
                        assert(frag_view(sub) == bnv.children[0]);
                        assert(is_branchless(frag_view(sub)));
                        assert(decreases_to!(branchless_tree => bn0));
                        assert(decreases_to!(bn0 => bn0.children));
                        assert(decreases_to!(bn0.children => bn0.children@));
                        assert(decreases_to!(bn0.children@ => bn0.children@[0]));
                    }
                    match child {
                        RouteFragment::Node(mut child_nd) => {
                            let ghost existing = node_view(child_nd);
                            proof {
                                assert(cv[idx as int] == frag_view(child));
                                assert(cv[idx as int] == TrieV::Node(existing));
                            }
                            merge_branchless_tree(&mut child_nd, sub);
                            let ghost merged = node_view(child_nd);
                            main_tree.children.insert(idx, RouteFragment::Node(child_nd));
                            proof {
                                assert(main_tree.children@ =~= before.update(
                                    idx as int,
                                    RouteFragment::Node(child_nd),
                                ));
                                lemma_frags_view_index(main_tree.children@);
                                assert(frags_view(main_tree.children@) =~= cv.update(
                                    idx as int,
                                    TrieV::Node(merged),
                                ));
                                assert(node_view(*main_tree) =~= merge_chain(main0, chain_v));
                            }
                        },
                        RouteFragment::Leaf(leaf) => {
                            proof {
                                assert(cv[idx as int] == frag_view(child));
                                assert(false);
                            }
                            main_tree.children.insert(idx, RouteFragment::Leaf(leaf));
                        },
                    }
                },
                Option::None => {
                    let ghost before = main_tree.children@;
                    main_tree.children.push(RouteFragment::Node(bn));
                    proof {
                        assert(main_tree.children@.drop_last() =~= before);
                        assert(frags_view(main_tree.children@) == frags_view(before).push(
                            chain_v,
                        ));
                        assert(node_view(*main_tree) =~= merge_chain(main0, chain_v));
                    }
                },
            }
        },
    }
}

// ===========================================================================
// The builder
// ===========================================================================

/// Builds the route trie from the flat route list.
pub struct RouteTrieBuilder {}

impl RouteTrieBuilder {
    /// Builds the shared-prefix trie: the root is a `Node` with the empty
    /// fragment name; each route's branchless chain is merged in order.
    pub fn build(routes: &Vec<Route>) -> (r: RouteFragment)
        ensures
            frag_view(r) == trie_spec(paths_of(routes@)),
    {
        let ghost paths = paths_of(routes@);
        let mut root = RouteFragmentNodeData {
            path_fragment_name: String::new(),
            is_param: false,
            children: Vec::new(),
        };
        proof {
            assert(node_view(root) =~= empty_root());
        }
        let mut i: usize = 0;
        while i < routes.len()
            invariant
                i <= routes@.len(),
                paths == paths_of(routes@),
                node_view(root) == trie_rec(paths, i as int),
            decreases routes@.len() - i,
        {
            let segs = split_path(routes[i].path.as_str());
            let chain = build_chain(&segs, i);
            proof {
                lemma_chain_branchless(segs@.map_values(|s: String| s@), i as int);
                assert(paths[i as int] == routes@[i as int].path@);
                assert(frag_view(chain) == route_chain(paths[i as int], i as int));
            }
            merge_branchless_tree(&mut root, chain);
            i = i + 1;
            proof {
                assert(node_view(root) == trie_rec(paths, i as int));
            }
        }
        RouteFragment::Node(root)
    }
}

} // verus!
