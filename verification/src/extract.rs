//! The tree extractor: a depth-first, pre-order traversal that collects
//! every node whose variant matches the asked-for kind and does not descend
//! below a match (first-match-per-branch pruning).
use crate::registry::{Chunk, ChunkModel};
use crate::walker::{ChunkNode, NodeModel};
use vstd::prelude::*;

verus! {

broadcast use vstd::seq::axiom_seq_index_decreases, vstd::seq::axiom_seq_subrange_decreases;

/// The kind of a chunk variant, for selecting nodes out of a decoded tree.
#[derive(Clone, Copy, Debug, PartialEq, Eq, Structural)]
pub enum ChunkKind {
    P3d,
    Fence,
    OBbox,
    Sphere,
    Cylinder,
    CollisionVec,
    Intersect,
    Locator,
    Skip,
}

/// Whether a chunk variant is of the given kind.
pub open spec fn spec_matches(c: ChunkModel, k: ChunkKind) -> bool {
    match c {
        ChunkModel::P3d => k == ChunkKind::P3d,
        ChunkModel::Fence(_) => k == ChunkKind::Fence,
        ChunkModel::OBbox(_, _, _) => k == ChunkKind::OBbox,
        ChunkModel::Sphere(_, _) => k == ChunkKind::Sphere,
        ChunkModel::Cylinder(_) => k == ChunkKind::Cylinder,
        ChunkModel::CollisionVec(_) => k == ChunkKind::CollisionVec,
        ChunkModel::Intersect(_) => k == ChunkKind::Intersect,
        ChunkModel::Locator(_) => k == ChunkKind::Locator,
        ChunkModel::Skip => k == ChunkKind::Skip,
    }
}

/// Tests whether a chunk is of the given kind.
pub fn matches_kind(c: &Chunk, k: ChunkKind) -> (r: bool)
    ensures
        r == spec_matches(c.model(), k),
{
    match c {
        Chunk::P3d(_) => k == ChunkKind::P3d,
        Chunk::Fence(_) => k == ChunkKind::Fence,
        Chunk::OBbox(_, _, _) => k == ChunkKind::OBbox,
        Chunk::Sphere(_, _) => k == ChunkKind::Sphere,
        Chunk::Cylinder(_) => k == ChunkKind::Cylinder,
        Chunk::CollisionVec(_) => k == ChunkKind::CollisionVec,
        Chunk::Intersect(_) => k == ChunkKind::Intersect,
        Chunk::Locator(_) => k == ChunkKind::Locator,
        Chunk::Skip(_) => k == ChunkKind::Skip,
    }
}

/// What extraction yields on a node: the node's own variant alone if it
/// matches (its subtree is pruned), else the concatenation of its
/// children's extractions, in order.
pub open spec fn spec_extract(n: NodeModel, k: ChunkKind) -> Seq<ChunkModel>
    decreases n,
{
    if spec_matches(n.variant, k) {
        Seq::empty().push(n.variant)
    } else {
        spec_extract_all(n.children, k)
    }
}

/// The concatenated extractions of a run of nodes, in order.
pub open spec fn spec_extract_all(s: Seq<NodeModel>, k: ChunkKind) -> Seq<ChunkModel>
    decreases s,
{
    if s.len() == 0 {
        Seq::empty()
    } else {
        spec_extract(s[0], k) + spec_extract_all(s.drop_first(), k)
    }
}

/// The models of a run of chunks, in order.
pub open spec fn chunk_models(s: Seq<Chunk>) -> Seq<ChunkModel> {
    Seq::new(s.len(), |i: int| s[i].model())
}

/// Unfolds one step of `spec_extract_all` at index `i`.
proof fn lemma_extract_all_skip(s: Seq<NodeModel>, i: int, k: ChunkKind)
    requires
        0 <= i < s.len(),
    ensures
        spec_extract_all(s.skip(i), k) == spec_extract(s[i], k) + spec_extract_all(
            s.skip(i + 1),
            k,
        ),
{
    assert(s.skip(i)[0] == s[i]);
    assert(s.skip(i).drop_first() =~= s.skip(i + 1));
}

/// Appends every match in `ct`'s subtree to `v`, depth-first and pre-order,
/// without descending below a match.
pub fn get_chunks(ct: &ChunkNode, kind: ChunkKind, v: &mut Vec<Chunk>)
    ensures
        chunk_models(final(v)@) == chunk_models(old(v)@) + spec_extract(ct.model(), kind),
    decreases *ct,
{
    if matches_kind(&ct.variant, kind) {
        let c = ct.variant.clone();
        v.push(c);
        proof {
            assert(chunk_models(v@) =~= chunk_models(v@.drop_last()) + Seq::empty().push(
                ct.variant.model(),
            ));
        }
        return ;
    }
    let ghost v0 = v@;
    let ghost kids = ct.model().children;
    let mut i: usize = 0;
    proof {
        assert(kids.skip(0) =~= kids);
        assert(chunk_models(v@) + spec_extract_all(kids, kind) =~= chunk_models(v0)
            + spec_extract_all(kids, kind));
    }
    while i < ct.children.len()
        invariant
            i <= ct.children.len(),
            kids == ct.model().children,
            kids.len() == ct.children.len(),
            chunk_models(v@) + spec_extract_all(kids.skip(i as int), kind) == chunk_models(v0)
                + spec_extract_all(kids, kind),
        decreases ct.children.len() - i,
    {
        let ghost before = v@;
        proof {
            assert(kids[i as int] == ct.children@[i as int].model());
        }
        get_chunks(&ct.children[i], kind, v);
        proof {
            lemma_extract_all_skip(kids, i as int, kind);
            assert(chunk_models(v@) =~= chunk_models(before) + spec_extract(
                ct.children@[i as int].model(),
                kind,
            ));
            assert(chunk_models(v@) + spec_extract_all(kids.skip(i as int + 1), kind)
                =~= chunk_models(before) + spec_extract_all(kids.skip(i as int), kind));
        }
        i += 1;
    }
    proof {
        assert(spec_extract_all(kids.skip(i as int), kind) =~= Seq::<ChunkModel>::empty());
        assert(chunk_models(v@) + Seq::<ChunkModel>::empty() =~= chunk_models(v@));
        assert(chunk_models(v0) + spec_extract_all(kids, kind) =~= chunk_models(v0) + spec_extract(
            ct.model(),
            kind,
        ));
    }
}

/// The node a path of child indices leads to, if the path is valid.
pub open spec fn spec_node_at(n: NodeModel, path: Seq<int>) -> Option<NodeModel>
    decreases path.len(),
{
    if path.len() == 0 {
        Some(n)
    } else if 0 <= path[0] < n.children.len() {
        spec_node_at(n.children[path[0]], path.drop_first())
    } else {
        None
    }
}

/// The variant at a path, for paths known to be valid.
pub open spec fn spec_variant_at(n: NodeModel, path: Seq<int>) -> ChunkModel {
    match spec_node_at(n, path) {
        Some(m) => m.variant,
        None => arbitrary(),
    }
}

/// Whether the node at a path exists and matches the kind.
pub open spec fn spec_matches_at(n: NodeModel, path: Seq<int>, k: ChunkKind) -> bool {
    match spec_node_at(n, path) {
        Some(m) => spec_matches(m.variant, k),
        None => false,
    }
}

/// Whether some strict ancestor of the path matches the kind.
pub open spec fn spec_ancestor_matches(n: NodeModel, path: Seq<int>, k: ChunkKind) -> bool {
    exists|j: int| 0 <= j < path.len() && spec_matches_at(n, #[trigger] path.take(j), k)
}

/// Every path of the tree, in depth-first pre-order: the empty path first,
/// then each child's paths in child order, each prefixed with its child's
/// index.
pub open spec fn spec_preorder(n: NodeModel) -> Seq<Seq<int>>
    decreases n, n.children.len() + 1int,
{
    Seq::empty().push(Seq::<int>::empty()) + spec_preorder_children(n, 0)
}

/// The pre-order paths into the children of `n` from child `idx` on.
pub open spec fn spec_preorder_children(n: NodeModel, idx: int) -> Seq<Seq<int>>
    decreases n, n.children.len() - idx,
{
    if idx < 0 || idx >= n.children.len() {
        Seq::empty()
    } else {
        spec_preorder(n.children[idx]).map_values(|p: Seq<int>| Seq::empty().push(idx) + p)
            + spec_preorder_children(n, idx + 1)
    }
}

/// Collects every chunk of the given kind out of a decoded tree,
/// depth-first and pre-order, pruning below each match.
pub fn extract(tree: &ChunkNode, kind: ChunkKind) -> (r: Vec<Chunk>)
    ensures
        chunk_models(r@) == spec_extract(tree.model(), kind),
{
    let mut v: Vec<Chunk> = Vec::new();
    proof {
        assert(chunk_models(Seq::<Chunk>::empty()) =~= Seq::<ChunkModel>::empty());
    }
    get_chunks(tree, kind, &mut v);
    proof {
        assert(Seq::<ChunkModel>::empty() + spec_extract(tree.model(), kind) =~= spec_extract(
            tree.model(),
            kind,
        ));
    }
    v
}

/// Filtering a mapped sequence is mapping the sequence filtered by the
/// composed predicate.
proof fn lemma_filter_map<A, B>(
    s: Seq<A>,
    f: spec_fn(A) -> B,
    pred: spec_fn(B) -> bool,
    pred2: spec_fn(A) -> bool,
)
    requires
        forall|i: int| 0 <= i < s.len() ==> pred2(#[trigger] s[i]) == pred(f(s[i])),
    ensures
        s.map_values(f).filter(pred) == s.filter(pred2).map_values(f),
    decreases s.len(),
{
    reveal(Seq::filter);
    if s.len() == 0 {
        assert(s.map_values(f) =~= Seq::<B>::empty());
        assert(s.filter(pred2).map_values(f) =~= Seq::<B>::empty());
    } else {
        lemma_filter_map(s.drop_last(), f, pred, pred2);
        assert(s.map_values(f).drop_last() =~= s.drop_last().map_values(f));
        assert(s.map_values(f).last() == f(s.last()));
        if pred2(s.last()) {
            assert(s.filter(pred2) == s.drop_last().filter(pred2).push(s.last()));
            assert(s.filter(pred2).map_values(f) =~= s.drop_last().filter(pred2).map_values(
                f,
            ).push(f(s.last())));
        }
    }
}

/// A filter that rejects every element yields the empty sequence.
proof fn lemma_filter_none<A>(s: Seq<A>, pred: spec_fn(A) -> bool)
    requires
        forall|i: int| 0 <= i < s.len() ==> !pred(#[trigger] s[i]),
    ensures
        s.filter(pred) == Seq::<A>::empty(),
    decreases s.len(),
{
    reveal(Seq::filter);
    if s.len() > 0 {
        lemma_filter_none(s.drop_last(), pred);
    }
}

/// A filter that keeps a single element yields that element alone.
proof fn lemma_filter_singleton<A>(s: Seq<A>, pred: spec_fn(A) -> bool)
    requires
        s.len() == 1,
        pred(s[0]),
    ensures
        s.filter(pred) == s,
{
    reveal(Seq::filter);
    assert(s.drop_last() =~= Seq::<A>::empty());
    assert(s.drop_last().filter(pred).push(s[0]) =~= s);
}

/// Every pre-order path into a node's children is non-empty.
proof fn lemma_preorder_children_nonempty(n: NodeModel, idx: int)
    ensures
        forall|j: int|
            0 <= j < spec_preorder_children(n, idx).len() ==> #[trigger] spec_preorder_children(
                n,
                idx,
            )[j].len() >= 1,
    decreases n, n.children.len() - idx,
{
    if idx < 0 || idx >= n.children.len() {
    } else {
        lemma_preorder_children_nonempty(n, idx + 1);
        let mapped = spec_preorder(n.children[idx]).map_values(
            |p: Seq<int>| Seq::empty().push(idx) + p,
        );
        let rest = spec_preorder_children(n, idx + 1);
        let whole = spec_preorder_children(n, idx);
        assert(forall|j: int| 0 <= j < mapped.len() ==> #[trigger] mapped[j].len() >= 1);
        assert forall|j: int| 0 <= j < whole.len() implies #[trigger] whole[j].len() >= 1 by {
            if j < mapped.len() {
                assert(whole[j] == mapped[j]);
            } else {
                assert(whole[j] == rest[j - mapped.len()]);
            }
        }
    }
}

/// Matching and pruning shift through one level of the tree: testing a
/// prefixed path against the parent is testing the path against the child,
/// provided the parent itself does not match.
proof fn lemma_pred_shift(n: NodeModel, idx: int, p: Seq<int>, k: ChunkKind)
    requires
        0 <= idx < n.children.len(),
        !spec_matches(n.variant, k),
    ensures
        spec_matches_at(n, Seq::empty().push(idx) + p, k) == spec_matches_at(
            n.children[idx],
            p,
            k,
        ),
        spec_ancestor_matches(n, Seq::empty().push(idx) + p, k) == spec_ancestor_matches(
            n.children[idx],
            p,
            k,
        ),
        spec_node_at(n, Seq::empty().push(idx) + p) == spec_node_at(n.children[idx], p),
{
    let full = Seq::empty().push(idx) + p;
    assert(full[0] == idx);
    assert(full.drop_first() =~= p);
    if spec_ancestor_matches(n.children[idx], p, k) {
        let j = choose|j: int|
            0 <= j < p.len() && spec_matches_at(n.children[idx], #[trigger] p.take(j), k);
        assert(full.take(j + 1) =~= Seq::empty().push(idx) + p.take(j));
        assert(full.take(j + 1)[0] == idx);
        assert(full.take(j + 1).drop_first() =~= p.take(j));
        assert(spec_matches_at(n, full.take(j + 1), k));
        assert(spec_ancestor_matches(n, full, k));
    }
    if spec_ancestor_matches(n, full, k) {
        let j = choose|j: int| 0 <= j < full.len() && spec_matches_at(n, #[trigger] full.take(j), k);
        if j == 0 {
            assert(full.take(0) =~= Seq::<int>::empty());
            assert(!spec_matches_at(n, full.take(0), k));
        } else {
            assert(full.take(j) =~= Seq::empty().push(idx) + p.take(j - 1));
            assert(full.take(j)[0] == idx);
            assert(full.take(j).drop_first() =~= p.take(j - 1));
            assert(spec_matches_at(n.children[idx], p.take(j - 1), k));
            assert(spec_ancestor_matches(n.children[idx], p, k));
        }
    }
}

/// The pruned pre-order selection a node's extraction must equal.
pub open spec fn spec_preorder_selection(n: NodeModel, k: ChunkKind) -> Seq<ChunkModel> {
    spec_preorder(n).filter(
        |p: Seq<int>| spec_matches_at(n, p, k) && !spec_ancestor_matches(n, p, k),
    ).map_values(|p: Seq<int>| spec_variant_at(n, p))
}

/// Law: extraction order and pruning.  What `extract` returns is exactly
/// the chunks at those depth-first pre-order paths that match the kind and
/// have no matching strict ancestor, in pre-order: matches come in
/// depth-first pre-order, and no returned match sits below another.
pub proof fn lemma_extract_preorder_pruning(n: NodeModel, k: ChunkKind)
    ensures
        spec_extract(n, k) == spec_preorder_selection(n, k),
    decreases n, n.children.len() + 1int,
{
    broadcast use vstd::seq_lib::group_filter_ensures;

    let pred = |p: Seq<int>| spec_matches_at(n, p, k) && !spec_ancestor_matches(n, p, k);
    let root: Seq<Seq<int>> = Seq::empty().push(Seq::<int>::empty());
    let rest = spec_preorder_children(n, 0);
    assert(spec_preorder(n) == root + rest);
    Seq::filter_distributes_over_add(root, rest, pred);
    lemma_preorder_children_nonempty(n, 0);
    if spec_matches(n.variant, k) {
        assert(pred(Seq::<int>::empty()));
        lemma_filter_singleton(root, pred);
        assert forall|j: int| 0 <= j < rest.len() implies !pred(#[trigger] rest[j]) by {
            assert(rest[j].take(0) =~= Seq::<int>::empty());
            assert(spec_matches_at(n, rest[j].take(0), k));
            assert(spec_ancestor_matches(n, rest[j], k));
        }
        lemma_filter_none(rest, pred);
        assert(root + Seq::<Seq<int>>::empty() =~= root);
        assert(root.map_values(|p: Seq<int>| spec_variant_at(n, p)) =~= Seq::empty().push(
            n.variant,
        ));
    } else {
        assert(!pred(Seq::<int>::empty()));
        lemma_filter_none(root, pred);
        lemma_extract_children(n, 0, k);
        assert(Seq::<Seq<int>>::empty() + rest.filter(pred) =~= rest.filter(pred));
        assert(n.children.skip(0) =~= n.children);
    }
}

/// The pruned pre-order selection over the children from `idx` on equals
/// the concatenated extraction of those children.
proof fn lemma_extract_children(n: NodeModel, idx: int, k: ChunkKind)
    requires
        0 <= idx <= n.children.len(),
        !spec_matches(n.variant, k),
    ensures
        spec_preorder_children(n, idx).filter(
            |p: Seq<int>| spec_matches_at(n, p, k) && !spec_ancestor_matches(n, p, k),
        ).map_values(|p: Seq<int>| spec_variant_at(n, p)) == spec_extract_all(
            n.children.skip(idx),
            k,
        ),
    decreases n, n.children.len() - idx,
{
    broadcast use vstd::seq_lib::group_filter_ensures;

    let pred = |p: Seq<int>| spec_matches_at(n, p, k) && !spec_ancestor_matches(n, p, k);
    let var_n = |p: Seq<int>| spec_variant_at(n, p);
    if idx >= n.children.len() {
        assert(n.children.skip(idx) =~= Seq::<NodeModel>::empty());
        lemma_filter_none(Seq::<Seq<int>>::empty(), pred);
        assert(Seq::<Seq<int>>::empty().map_values(var_n) =~= Seq::<ChunkModel>::empty());
    } else {
        let child = n.children[idx];
        let prefix = |p: Seq<int>| Seq::empty().push(idx) + p;
        let child_pred = |p: Seq<int>|
            spec_matches_at(child, p, k) && !spec_ancestor_matches(child, p, k);
        let child_var = |p: Seq<int>| spec_variant_at(child, p);
        let cp = spec_preorder(child);
        let mapped = cp.map_values(prefix);
        let rest = spec_preorder_children(n, idx + 1);
        assert(spec_preorder_children(n, idx) == mapped + rest);
        Seq::filter_distributes_over_add(mapped, rest, pred);
        assert forall|i: int| 0 <= i < cp.len() implies child_pred(#[trigger] cp[i]) == pred(
            prefix(cp[i]),
        ) by {
            lemma_pred_shift(n, idx, cp[i], k);
        }
        lemma_filter_map(cp, prefix, pred, child_pred);
        // map the kept child paths through the parent's variant view
        let kept = cp.filter(child_pred);
        assert forall|i: int| 0 <= i < kept.len() implies var_n(prefix(#[trigger] kept[i]))
            == child_var(kept[i]) by {
            lemma_pred_shift(n, idx, kept[i], k);
        }
        assert(kept.map_values(prefix).map_values(var_n) =~= kept.map_values(child_var));
        lemma_extract_preorder_pruning(child, k);
        lemma_extract_children(n, idx + 1, k);
        assert((mapped.filter(pred) + rest.filter(pred)).map_values(var_n) =~= mapped.filter(
            pred,
        ).map_values(var_n) + rest.filter(pred).map_values(var_n));
        lemma_extract_all_skip(n.children, idx, k);
    }
}

} // verus!
