//! What holds of forests: how often a key occurs, when two forests have one
//! shape, and what finding, replacing, adding and taking away do to both.

use crate::tree;
use crate::tree::Tree;
use vstd::prelude::*;

verus! {

/// What `child_index_from` returns is a position in `f` at or after `from`
/// that holds `id`, and no earlier position from `from` on does.
pub proof fn lemma_child_index_from<T>(f: Seq<Tree<T>>, from: int, id: u64)
    requires
        0 <= from,
    ensures
        match tree::child_index_from(f, from, id) {
            Some(i) => from <= i < f.len() && f[i].id == id && forall|j: int|
                from <= j < i ==> f[j].id != id,
            None => forall|j: int| from <= j < f.len() ==> f[j].id != id,
        },
    decreases f.len() - from,
{
    if from < f.len() && f[from].id != id {
        lemma_child_index_from(f, from + 1, id);
    }
}

/// The key of the owner changes nothing but the `parent_id` that is
/// reported for a root of the forest.
pub proof fn lemma_locate_parent<T>(
    f: Seq<Tree<T>>,
    from: int,
    p: Option<u64>,
    q: Option<u64>,
    id: u64,
)
    ensures
        tree::locate_from(f, from, p, id) is Some <==> tree::locate_from(f, from, q, id) is Some,
        tree::locate_from(f, from, p, id) matches Some(a) ==> {
            let b = tree::locate_from(f, from, q, id)->0;
            &&& a.tree == b.tree
            &&& (a.parent_id == b.parent_id || (a.parent_id == p && b.parent_id == q))
        },
    decreases f.len() - from,
{
    if 0 <= from < f.len() && f[from].id != id {
        if tree::locate_from(f[from].children, 0, Some(f[from].id), id) is None {
            lemma_locate_parent(f, from + 1, p, q, id);
        }
    }
}

/// A node that is found is keyed by what was asked for.
pub proof fn lemma_locate_id<T>(f: Seq<Tree<T>>, from: int, parent: Option<u64>, id: u64)
    ensures
        tree::locate_from(f, from, parent, id) matches Some(found) ==> found.tree.id == id,
    decreases f, f.len() - from,
{
    if 0 <= from < f.len() && f[from].id != id {
        lemma_locate_id(f[from].children, 0, Some(f[from].id), id);
        lemma_locate_id(f, from + 1, parent, id);
    }
}

/// Replacing a tree by one with the same key at its root moves no key among
/// the roots.
pub proof fn lemma_child_index_update<T>(f: Seq<Tree<T>>, from: int, id: u64, i: int, t: Tree<T>)
    requires
        0 <= from,
        0 <= i < f.len(),
        t.id == f[i].id,
    ensures
        tree::child_index_from(f.update(i, t), from, id) == tree::child_index_from(f, from, id),
    decreases f.len() - from,
{
    if from < f.len() && f[from].id != id {
        lemma_child_index_update(f, from + 1, id, i, t);
    }
}

/// Replacing a node changes neither how many roots there are nor any root
/// before the place where the search began.
pub proof fn lemma_replace_prefix<T>(f: Seq<Tree<T>>, from: int, id: u64, t: Tree<T>)
    requires
        0 <= from,
    ensures
        tree::replace_from(f, from, id, t).len() == f.len(),
        forall|j: int|
            0 <= j < from && j < f.len() ==> tree::replace_from(f, from, id, t)[j] == f[j],
    decreases f.len() - from,
{
    if from < f.len() && f[from].id != id && tree::locate_from(
        f[from].children,
        0,
        Some(f[from].id),
        id,
    ) is None {
        lemma_replace_prefix(f, from + 1, id, t);
    }
}

/// A key is found exactly where it occurs at least once.
pub proof fn lemma_locate_occurs<T>(f: Seq<Tree<T>>, from: int, parent: Option<u64>, id: u64)
    ensures
        tree::locate_from(f, from, parent, id) is Some <==> tree::occurrences_from(f, from, id)
            >= 1,
    decreases f, f.len() - from,
{
    if 0 <= from < f.len() {
        lemma_locate_occurs(f[from].children, 0, Some(f[from].id), id);
        lemma_locate_occurs(f, from + 1, parent, id);
    }
}

/// Two forests that agree from some place on hold a key equally often from
/// there on.
pub proof fn lemma_occurrences_shift<T>(f: Seq<Tree<T>>, a: int, g: Seq<Tree<T>>, b: int, id: u64)
    requires
        0 <= a,
        0 <= b,
        f.len() - a == g.len() - b,
        forall|j: int| a <= j < f.len() ==> #[trigger] f[j] == g[j - a + b],
    ensures
        tree::occurrences_from(f, a, id) == tree::occurrences_from(g, b, id),
    decreases f.len() - a,
{
    if a < f.len() {
        assert(f[a] == g[b]);
        assert forall|j: int| a + 1 <= j < f.len() implies #[trigger] f[j] == g[j - (a + 1) + (b
            + 1)] by {
            assert(f[j] == g[j - a + b]);
        }
        lemma_occurrences_shift(f, a + 1, g, b + 1, id);
    }
}

/// Putting `t` in the place of the root at `i` takes away what that root
/// held of `id` and adds what `t` holds.
pub proof fn lemma_occurrences_update<T>(f: Seq<Tree<T>>, from: int, i: int, t: Tree<T>, id: u64)
    requires
        0 <= from <= i < f.len(),
    ensures
        tree::occurrences_from(f.update(i, t), from, id) + tree::occurrences_in(f[i], id)
            == tree::occurrences_from(f, from, id) + tree::occurrences_in(t, id),
    decreases i - from,
{
    let g = f.update(i, t);
    if from == i {
        lemma_occurrences_shift(f, i + 1, g, i + 1, id);
    } else {
        lemma_occurrences_update(f, from + 1, i, t, id);
    }
}

/// A tree added behind the last root adds what it holds of `id`.
pub proof fn lemma_occurrences_push<T>(f: Seq<Tree<T>>, from: int, t: Tree<T>, id: u64)
    requires
        0 <= from <= f.len(),
    ensures
        tree::occurrences_from(f.push(t), from, id) == tree::occurrences_from(f, from, id)
            + tree::occurrences_in(t, id),
    decreases f.len() - from,
{
    let g = f.push(t);
    if from < f.len() {
        lemma_occurrences_push(f, from + 1, t, id);
    } else {
        assert(g[from] == t);
        assert(tree::occurrences_from(g, from + 1, id) == 0);
    }
}

/// Taking the root at `i` away takes away what it held of `id`.
pub proof fn lemma_occurrences_remove<T>(f: Seq<Tree<T>>, from: int, i: int, id: u64)
    requires
        0 <= from <= i < f.len(),
    ensures
        tree::occurrences_from(f.remove(i), from, id) + tree::occurrences_in(f[i], id)
            == tree::occurrences_from(f, from, id),
    decreases i - from,
{
    let g = f.remove(i);
    if from == i {
        lemma_occurrences_shift(f, i + 1, g, i, id);
    } else {
        assert(g[from] == f[from]);
        lemma_occurrences_remove(f, from + 1, i, id);
    }
}

/// Replacing the node keyed `p` by `t` takes away what that node held of
/// `id` and adds what `t` holds; where no node is keyed `p`, nothing
/// changes.
pub proof fn lemma_occurrences_replace<T>(
    f: Seq<Tree<T>>,
    from: int,
    parent: Option<u64>,
    p: u64,
    t: Tree<T>,
    id: u64,
)
    requires
        0 <= from,
    ensures
        match tree::locate_from(f, from, parent, p) {
            Some(found) => tree::occurrences_from(tree::replace_from(f, from, p, t), from, id)
                + tree::occurrences_in(found.tree, id) == tree::occurrences_from(f, from, id)
                + tree::occurrences_in(t, id),
            None => tree::replace_from(f, from, p, t) == f,
        },
    decreases f, f.len() - from,
{
    if from < f.len() {
        if f[from].id == p {
            lemma_occurrences_update(f, from, from, t, id);
        } else {
            let below = tree::locate_from(f[from].children, 0, Some(f[from].id), p);
            lemma_occurrences_replace(f[from].children, 0, Some(f[from].id), p, t, id);
            if below is Some {
                let m = Tree {
                    id: f[from].id,
                    item: f[from].item,
                    children: tree::replace_from(f[from].children, 0, p, t),
                };
                lemma_occurrences_update(f, from, from, m, id);
            } else {
                lemma_occurrences_replace(f, from + 1, parent, p, t, id);
                lemma_replace_prefix(f, from + 1, p, t);
            }
        }
    }
}

/// What adding a child does to the number of nodes keyed `id`: it adds what
/// the new tree holds, where the parent exists.
pub proof fn lemma_with_child_occurrences<T>(
    f: Seq<Tree<T>>,
    parent: Option<u64>,
    t: Tree<T>,
    id: u64,
)
    ensures
        tree::occurrences(tree::with_child(f, parent, t), id) == tree::occurrences(f, id) + (
        if parent matches Some(p) && !tree::contains(f, p) {
            0nat
        } else {
            tree::occurrences_in(t, id)
        }),
{
    match parent {
        None => {
            lemma_occurrences_push(f, 0, t, id);
        },
        Some(p) => {
            match tree::locate(f, None, p) {
                Some(found) => {
                    let grown = Tree {
                        id: found.tree.id,
                        item: found.tree.item,
                        children: found.tree.children.push(t),
                    };
                    lemma_occurrences_push(found.tree.children, 0, t, id);
                    lemma_occurrences_replace(f, 0, None, p, grown, id);
                },
                None => {},
            }
        },
    }
}

/// What taking a child away does to the number of nodes keyed `k`: it takes
/// away what the child's tree held.
pub proof fn lemma_without_child_occurrences<T>(
    f: Seq<Tree<T>>,
    parent: Option<u64>,
    id: u64,
    k: u64,
)
    requires
        tree::has_child(f, parent, id),
    ensures
        tree::occurrences(tree::without_child(f, parent, id), k) < tree::occurrences(f, k) || k
            != id,
        tree::occurrences(tree::without_child(f, parent, id), k) <= tree::occurrences(f, k),
{
    match parent {
        None => {
            let i = tree::child_index(f, id)->0;
            lemma_child_index_from(f, 0, id);
            lemma_occurrences_remove(f, 0, i, k);
        },
        Some(p) => {
            let found = tree::locate(f, None, p)->0;
            let i = tree::child_index(found.tree.children, id)->0;
            lemma_child_index_from(found.tree.children, 0, id);
            let shrunk = Tree {
                id: found.tree.id,
                item: found.tree.item,
                children: found.tree.children.remove(i),
            };
            lemma_occurrences_remove(found.tree.children, 0, i, k);
            lemma_occurrences_replace(f, 0, None, p, shrunk, k);
        },
    }
}

/// A key that occurs no more than once is gone from the forest once the
/// child that carries it is taken away.
pub proof fn lemma_removed_child_is_absent<T>(f: Seq<Tree<T>>, parent: Option<u64>, id: u64)
    requires
        tree::has_child(f, parent, id),
        tree::occurrences(f, id) <= 1,
    ensures
        !tree::contains(tree::without_child(f, parent, id), id),
{
    lemma_without_child_occurrences(f, parent, id, id);
    lemma_locate_occurs(tree::without_child(f, parent, id), 0, None, id);
}

/// A key is in the forest once a tree that holds it has been added under a
/// parent that exists.
pub proof fn lemma_added_child_is_present<T>(f: Seq<Tree<T>>, parent: Option<u64>, t: Tree<T>)
    requires
        parent matches Some(p) ==> tree::contains(f, p),
    ensures
        tree::contains(tree::with_child(f, parent, t), t.id),
{
    lemma_with_child_occurrences(f, parent, t, t.id);
    lemma_locate_occurs(tree::with_child(f, parent, t), 0, None, t.id);
}

/// In two forests of one shape a key is found in both or in neither, under
/// the same parent, and what lies below it has one shape again.
pub proof fn lemma_same_shape_locate<A, B>(
    a: Seq<Tree<A>>,
    b: Seq<Tree<B>>,
    from: int,
    parent: Option<u64>,
    id: u64,
)
    requires
        tree::same_shape(a, b),
    ensures
        tree::locate_from(a, from, parent, id) is Some <==> tree::locate_from(b, from, parent, id)
            is Some,
        tree::locate_from(a, from, parent, id) matches Some(x) ==> {
            let y = tree::locate_from(b, from, parent, id)->0;
            &&& x.parent_id == y.parent_id
            &&& x.tree.id == y.tree.id
            &&& tree::same_shape(x.tree.children, y.tree.children)
        },
    decreases a, a.len() - from,
{
    if 0 <= from < a.len() {
        assert(a[from].id == b[from].id && tree::same_shape(a[from].children, b[from].children));
        if a[from].id != id {
            lemma_same_shape_locate(a[from].children, b[from].children, 0, Some(a[from].id), id);
            lemma_same_shape_locate(a, b, from + 1, parent, id);
        }
    }
}

/// In two forests of one shape the first root keyed `id` stands at the same
/// place.
pub proof fn lemma_same_shape_child_index<A, B>(
    a: Seq<Tree<A>>,
    b: Seq<Tree<B>>,
    from: int,
    id: u64,
)
    requires
        tree::same_shape(a, b),
    ensures
        tree::child_index_from(a, from, id) == tree::child_index_from(b, from, id),
    decreases a.len() - from,
{
    if 0 <= from < a.len() {
        assert(a[from].id == b[from].id);
        if a[from].id != id {
            lemma_same_shape_child_index(a, b, from + 1, id);
        }
    }
}

/// Two forests of one shape keep one shape when the node keyed `id` is
/// replaced in both by trees of one shape.
pub proof fn lemma_same_shape_replace<A, B>(
    a: Seq<Tree<A>>,
    b: Seq<Tree<B>>,
    from: int,
    id: u64,
    ta: Tree<A>,
    tb: Tree<B>,
)
    requires
        0 <= from,
        tree::same_shape(a, b),
        ta.id == tb.id,
        tree::same_shape(ta.children, tb.children),
    ensures
        tree::same_shape(tree::replace_from(a, from, id, ta), tree::replace_from(b, from, id, tb)),
    decreases a, a.len() - from,
{
    let ra = tree::replace_from(a, from, id, ta);
    let rb = tree::replace_from(b, from, id, tb);
    if from < a.len() {
        assert(a[from].id == b[from].id && tree::same_shape(a[from].children, b[from].children));
        if a[from].id == id {
            assert forall|i: int| 0 <= i < ra.len() implies (#[trigger] ra[i]).id == rb[i].id
                && tree::same_shape(ra[i].children, rb[i].children) by {
                if i != from {
                    assert(a[i].id == b[i].id && tree::same_shape(a[i].children, b[i].children));
                }
            }
        } else {
            lemma_same_shape_locate(a[from].children, b[from].children, 0, Some(a[from].id), id);
            if tree::locate_from(a[from].children, 0, Some(a[from].id), id) is Some {
                lemma_same_shape_replace(a[from].children, b[from].children, 0, id, ta, tb);
                assert forall|i: int| 0 <= i < ra.len() implies (#[trigger] ra[i]).id == rb[i].id
                    && tree::same_shape(ra[i].children, rb[i].children) by {
                    if i != from {
                        assert(a[i].id == b[i].id && tree::same_shape(
                            a[i].children,
                            b[i].children,
                        ));
                    }
                }
            } else {
                lemma_same_shape_replace(a, b, from + 1, id, ta, tb);
            }
        }
    }
}

/// Two forests of one shape keep one shape when trees of one shape are added
/// to both under the same parent.
pub proof fn lemma_same_shape_with_child<A, B>(
    a: Seq<Tree<A>>,
    b: Seq<Tree<B>>,
    parent: Option<u64>,
    ta: Tree<A>,
    tb: Tree<B>,
)
    requires
        tree::same_shape(a, b),
        ta.id == tb.id,
        tree::same_shape(ta.children, tb.children),
    ensures
        tree::same_shape(tree::with_child(a, parent, ta), tree::with_child(b, parent, tb)),
{
    match parent {
        None => {
            let ga = a.push(ta);
            let gb = b.push(tb);
            assert forall|i: int| 0 <= i < ga.len() implies (#[trigger] ga[i]).id == gb[i].id
                && tree::same_shape(ga[i].children, gb[i].children) by {
                if i < a.len() {
                    assert(a[i].id == b[i].id && tree::same_shape(a[i].children, b[i].children));
                }
            }
        },
        Some(p) => {
            lemma_same_shape_locate(a, b, 0, None, p);
            lemma_locate_id(a, 0, None, p);
            lemma_locate_id(b, 0, None, p);
            if tree::locate(a, None, p) is Some {
                let x = tree::locate(a, None, p)->0.tree;
                let y = tree::locate(b, None, p)->0.tree;
                let ga = x.children.push(ta);
                let gb = y.children.push(tb);
                assert forall|i: int| 0 <= i < ga.len() implies (#[trigger] ga[i]).id == gb[i].id
                    && tree::same_shape(ga[i].children, gb[i].children) by {
                    if i < x.children.len() {
                        assert(x.children[i].id == y.children[i].id && tree::same_shape(
                            x.children[i].children,
                            y.children[i].children,
                        ));
                    }
                }
                lemma_same_shape_replace(
                    a,
                    b,
                    0,
                    p,
                    Tree { id: x.id, item: x.item, children: ga },
                    Tree { id: y.id, item: y.item, children: gb },
                );
            }
        },
    }
}

/// Two forests of one shape keep one shape when the same child is taken out
/// of both.
pub proof fn lemma_same_shape_without_child<A, B>(
    a: Seq<Tree<A>>,
    b: Seq<Tree<B>>,
    parent: Option<u64>,
    id: u64,
)
    requires
        tree::same_shape(a, b),
    ensures
        tree::has_child(a, parent, id) == tree::has_child(b, parent, id),
        tree::same_shape(tree::without_child(a, parent, id), tree::without_child(b, parent, id)),
{
    match parent {
        None => {
            lemma_same_shape_child_index(a, b, 0, id);
            if tree::child_index(a, id) is Some {
                let i = tree::child_index(a, id)->0;
                lemma_child_index_from(a, 0, id);
                let ga = a.remove(i);
                let gb = b.remove(i);
                assert forall|j: int| 0 <= j < ga.len() implies (#[trigger] ga[j]).id == gb[j].id
                    && tree::same_shape(ga[j].children, gb[j].children) by {
                    if j < i {
                        assert(a[j].id == b[j].id && tree::same_shape(
                            a[j].children,
                            b[j].children,
                        ));
                    } else {
                        assert(a[j + 1].id == b[j + 1].id && tree::same_shape(
                            a[j + 1].children,
                            b[j + 1].children,
                        ));
                    }
                }
            }
        },
        Some(p) => {
            lemma_same_shape_locate(a, b, 0, None, p);
            lemma_locate_id(a, 0, None, p);
            lemma_locate_id(b, 0, None, p);
            if tree::locate(a, None, p) is Some {
                let x = tree::locate(a, None, p)->0.tree;
                let y = tree::locate(b, None, p)->0.tree;
                lemma_same_shape_child_index(x.children, y.children, 0, id);
                if tree::child_index(x.children, id) is Some {
                    let i = tree::child_index(x.children, id)->0;
                    lemma_child_index_from(x.children, 0, id);
                    let ga = x.children.remove(i);
                    let gb = y.children.remove(i);
                    assert forall|j: int| 0 <= j < ga.len() implies (#[trigger] ga[j]).id
                        == gb[j].id && tree::same_shape(ga[j].children, gb[j].children) by {
                        if j < i {
                            assert(x.children[j].id == y.children[j].id && tree::same_shape(
                                x.children[j].children,
                                y.children[j].children,
                            ));
                        } else {
                            assert(x.children[j + 1].id == y.children[j + 1].id
                                && tree::same_shape(
                                x.children[j + 1].children,
                                y.children[j + 1].children,
                            ));
                        }
                    }
                    lemma_same_shape_replace(
                        a,
                        b,
                        0,
                        p,
                        Tree { id: x.id, item: x.item, children: ga },
                        Tree { id: y.id, item: y.item, children: gb },
                    );
                }
            }
        },
    }
}

/// Two forests of one shape have the same keys at their roots, in the same
/// order.
pub proof fn lemma_same_shape_root_ids<A, B>(a: Seq<Tree<A>>, b: Seq<Tree<B>>)
    requires
        tree::same_shape(a, b),
    ensures
        tree::root_ids(a) == tree::root_ids(b),
{
    assert forall|i: int| 0 <= i < a.len() implies tree::root_ids(a)[i] == tree::root_ids(b)[i] by {
        assert(a[i].id == b[i].id);
    }
    assert(tree::root_ids(a) =~= tree::root_ids(b));
}

/// Putting the node that is found back in its place changes nothing.
pub proof fn lemma_replace_found<T>(f: Seq<Tree<T>>, from: int, parent: Option<u64>, id: u64)
    ensures
        tree::locate_from(f, from, parent, id) matches Some(found) ==> tree::replace_from(
            f,
            from,
            id,
            found.tree,
        ) == f,
    decreases f, f.len() - from,
{
    if 0 <= from < f.len() {
        if f[from].id == id {
            assert(f.update(from, f[from]) =~= f);
        } else {
            let below = tree::locate_from(f[from].children, 0, Some(f[from].id), id);
            if below is Some {
                lemma_replace_found(f[from].children, 0, Some(f[from].id), id);
                assert(f.update(from, f[from]) =~= f);
            } else {
                lemma_replace_found(f, from + 1, parent, id);
            }
        }
    }
}

/// Two forests of one shape hold every key equally often.
pub proof fn lemma_same_shape_occurrences<A, B>(
    a: Seq<Tree<A>>,
    b: Seq<Tree<B>>,
    from: int,
    k: u64,
)
    requires
        tree::same_shape(a, b),
    ensures
        tree::occurrences_from(a, from, k) == tree::occurrences_from(b, from, k),
    decreases a, a.len() - from,
{
    if 0 <= from < a.len() {
        assert(a[from].id == b[from].id && tree::same_shape(a[from].children, b[from].children));
        lemma_same_shape_occurrences(a[from].children, b[from].children, 0, k);
        lemma_same_shape_occurrences(a, b, from + 1, k);
    }
}

/// Every forest has its own shape.
pub proof fn lemma_same_shape_refl<T>(f: Seq<Tree<T>>)
    ensures
        tree::same_shape(f, f),
    decreases f,
{
    assert forall|i: int| 0 <= i < f.len() implies (#[trigger] f[i]).id == f[i].id
        && tree::same_shape(f[i].children, f[i].children) by {
        lemma_same_shape_refl(f[i].children);
    }
}

/// A node stays where it is, and every other key with it, when it is
/// replaced by a tree with the same key at its root and the same shape below:
/// the forest keeps its shape, and every key is in it as often as before.
pub proof fn lemma_replace_keeps_keys<T>(f: Seq<Tree<T>>, id: u64, t: Tree<T>, k: u64)
    requires
        tree::locate(f, None, id) matches Some(found) && tree::same_shape(
            found.tree.children,
            t.children,
        ),
        t.id == id,
    ensures
        tree::same_shape(f, tree::replace(f, id, t)),
        tree::occurrences(tree::replace(f, id, t), k) == tree::occurrences(f, k),
        tree::contains(tree::replace(f, id, t), k) == tree::contains(f, k),
{
    let found = tree::locate(f, None, id)->0;
    lemma_locate_id(f, 0, None, id);
    lemma_same_shape_occurrences(found.tree.children, t.children, 0, k);
    lemma_occurrences_replace(f, 0, None, id, t, k);
    lemma_locate_occurs(f, 0, None, k);
    lemma_locate_occurs(tree::replace(f, id, t), 0, None, k);
    lemma_same_shape_refl(f);
    lemma_replace_found(f, 0, None, id);
    lemma_same_shape_replace(f, f, 0, id, found.tree, t);
}

} // verus!
