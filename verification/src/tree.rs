//! Forests as mathematical values, and what it means to find, replace, add
//! and take away a node in one.

use vstd::prelude::*;

verus! {

/// A tree as a mathematical value: a key, a payload and the ordered subtrees.
pub struct Tree<T> {
    pub id: u64,
    pub item: T,
    pub children: Seq<Tree<T>>,
}

/// A node found in a forest, together with the key of the node above it
/// (`None` when the forest that was searched has no owner).
pub struct Located<T> {
    pub parent_id: Option<u64>,
    pub tree: Tree<T>,
}

/// The first node keyed `id` that a depth-first, left-to-right walk of
/// `f[from..]` meets, where `parent` is the key of the node that owns `f`.
pub open spec fn locate_from<T>(f: Seq<Tree<T>>, from: int, parent: Option<u64>, id: u64) -> Option<
    Located<T>,
>
    decreases f, f.len() - from,
{
    if from < 0 || from >= f.len() {
        None
    } else if f[from].id == id {
        Some(Located { parent_id: parent, tree: f[from] })
    } else {
        match locate_from(f[from].children, 0, Some(f[from].id), id) {
            Some(found) => Some(found),
            None => locate_from(f, from + 1, parent, id),
        }
    }
}

/// The first node keyed `id` in the forest `f`, whose owner is keyed `parent`.
pub open spec fn locate<T>(f: Seq<Tree<T>>, parent: Option<u64>, id: u64) -> Option<Located<T>> {
    locate_from(f, 0, parent, id)
}

/// Whether a node keyed `id` occurs anywhere in `f`.
pub open spec fn contains<T>(f: Seq<Tree<T>>, id: u64) -> bool {
    locate(f, None, id) is Some
}

/// `f` with the node that `locate_from(f, from, _, id)` finds replaced by `t`;
/// `f` itself when there is no such node.
pub open spec fn replace_from<T>(f: Seq<Tree<T>>, from: int, id: u64, t: Tree<T>) -> Seq<Tree<T>>
    decreases f, f.len() - from,
{
    if from < 0 || from >= f.len() {
        f
    } else if f[from].id == id {
        f.update(from, t)
    } else if locate_from(f[from].children, 0, Some(f[from].id), id) is Some {
        f.update(
            from,
            Tree {
                id: f[from].id,
                item: f[from].item,
                children: replace_from(f[from].children, 0, id, t),
            },
        )
    } else {
        replace_from(f, from + 1, id, t)
    }
}

/// `f` with the first node keyed `id` replaced by `t`.
pub open spec fn replace<T>(f: Seq<Tree<T>>, id: u64, t: Tree<T>) -> Seq<Tree<T>> {
    replace_from(f, 0, id, t)
}

/// The position of the first tree in `f[from..]` whose root is keyed `id`.
pub open spec fn child_index_from<T>(f: Seq<Tree<T>>, from: int, id: u64) -> Option<int>
    decreases f.len() - from,
{
    if from < 0 || from >= f.len() {
        None
    } else if f[from].id == id {
        Some(from)
    } else {
        child_index_from(f, from + 1, id)
    }
}

/// The position of the first tree in `f` whose root is keyed `id`.
pub open spec fn child_index<T>(f: Seq<Tree<T>>, id: u64) -> Option<int> {
    child_index_from(f, 0, id)
}

/// Whether two forests have one shape: the same keys in the same places,
/// whatever the payloads are.
pub open spec fn same_shape<A, B>(a: Seq<Tree<A>>, b: Seq<Tree<B>>) -> bool
    decreases a,
{
    &&& a.len() == b.len()
    &&& forall|i: int|
        0 <= i < a.len() ==> (#[trigger] a[i]).id == b[i].id && same_shape(
            a[i].children,
            b[i].children,
        )
}

/// How many nodes of `f[from..]`, at any depth, are keyed `id`.
pub open spec fn occurrences_from<T>(f: Seq<Tree<T>>, from: int, id: u64) -> nat
    decreases f, f.len() - from,
{
    if from < 0 || from >= f.len() {
        0
    } else {
        (if f[from].id == id {
            1nat
        } else {
            0nat
        }) + occurrences_from(f[from].children, 0, id) + occurrences_from(f, from + 1, id)
    }
}

/// How many nodes of the forest `f` are keyed `id`.
pub open spec fn occurrences<T>(f: Seq<Tree<T>>, id: u64) -> nat {
    occurrences_from(f, 0, id)
}

/// How many nodes of the tree `t`, its root included, are keyed `id`.
pub open spec fn occurrences_in<T>(t: Tree<T>, id: u64) -> nat {
    (if t.id == id {
        1nat
    } else {
        0nat
    }) + occurrences_from(t.children, 0, id)
}

/// The keys of the roots of `f`, in order.
pub open spec fn root_ids<T>(f: Seq<Tree<T>>) -> Seq<u64> {
    Seq::new(f.len(), |i: int| f[i].id)
}

/// `f` with `t` added behind the last child of the first node keyed
/// `parent`, or behind the last root where `parent` is `None`; `f` itself
/// where no node is keyed `parent`.
pub open spec fn with_child<T>(f: Seq<Tree<T>>, parent: Option<u64>, t: Tree<T>) -> Seq<Tree<T>> {
    match parent {
        None => f.push(t),
        Some(p) => match locate(f, None, p) {
            Some(found) => replace(
                f,
                p,
                Tree {
                    id: found.tree.id,
                    item: found.tree.item,
                    children: found.tree.children.push(t),
                },
            ),
            None => f,
        },
    }
}

/// Whether the first node keyed `parent` (the forest itself where `parent`
/// is `None`) has a child keyed `id`.
pub open spec fn has_child<T>(f: Seq<Tree<T>>, parent: Option<u64>, id: u64) -> bool {
    match parent {
        None => child_index(f, id) is Some,
        Some(p) => match locate(f, None, p) {
            Some(found) => child_index(found.tree.children, id) is Some,
            None => false,
        },
    }
}

/// `f` without the first child keyed `id` of the first node keyed `parent`
/// (without the first root keyed `id` where `parent` is `None`), and without
/// everything below that child; `f` itself where there is no such child.
pub open spec fn without_child<T>(f: Seq<Tree<T>>, parent: Option<u64>, id: u64) -> Seq<Tree<T>> {
    if !has_child(f, parent, id) {
        f
    } else {
        match parent {
            None => f.remove(child_index(f, id)->0),
            Some(p) => {
                let found = locate(f, None, p)->0;
                replace(
                    f,
                    p,
                    Tree {
                        id: found.tree.id,
                        item: found.tree.item,
                        children: found.tree.children.remove(
                            child_index(found.tree.children, id)->0,
                        ),
                    },
                )
            },
        }
    }
}

} // verus!
