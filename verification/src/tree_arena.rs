//! A forest of payloads keyed by numbers, which hands out a node's payload
//! and its children as separate borrows.

use crate::tree;
use crate::tree::{Located, Tree};
use crate::tree_laws;
use vstd::prelude::*;

verus! {

/// One node of the forest: its key, its payload and its children in order.
pub struct TreeNode<T> {
    pub id: u64,
    pub item: T,
    pub children: Vec<TreeNode<T>>,
}

/// A forest of payloads of type `T`, each node keyed by a `u64`.
pub struct TreeArena<T> {
    pub roots: Vec<TreeNode<T>>,
}

/// Shared access to the children of a node, or to the roots of the forest
/// when `id` is `None`.
pub struct ArenaRefChildren<'a, T> {
    pub id: Option<u64>,
    pub children: &'a Vec<TreeNode<T>>,
}

/// Shared access to one node: its payload, the key of its parent and its
/// children.
pub struct ArenaRef<'a, T> {
    pub parent_id: Option<u64>,
    pub item: &'a T,
    pub children: ArenaRefChildren<'a, T>,
}

/// Exclusive access to the children of a node, or to the roots of the forest
/// when `id` is `None`.
pub struct ArenaMutChildren<'a, T> {
    pub id: Option<u64>,
    pub children: &'a mut Vec<TreeNode<T>>,
}

/// Exclusive access to one node: its payload and, apart from it, its
/// children.
pub struct ArenaMut<'a, T> {
    pub parent_id: Option<u64>,
    pub item: &'a mut T,
    pub children: ArenaMutChildren<'a, T>,
}

impl<T> View for TreeNode<T> {
    type V = Tree<T>;

    open spec fn view(&self) -> Tree<T>
        decreases self,
    {
        Tree { id: self.id, item: self.item, children: forest(self.children@) }
    }
}

/// The mathematical forest that a sequence of nodes stands for.
pub open spec fn forest<T>(nodes: Seq<TreeNode<T>>) -> Seq<Tree<T>>
    decreases nodes,
{
    Seq::new(
        nodes.len(),
        |i: int|
            if 0 <= i < nodes.len() {
                nodes[i].view()
            } else {
                arbitrary()
            },
    )
}

impl<T> View for TreeArena<T> {
    type V = Seq<Tree<T>>;

    open spec fn view(&self) -> Seq<Tree<T>> {
        forest(self.roots@)
    }
}

impl<'a, T> View for ArenaRefChildren<'a, T> {
    type V = Seq<Tree<T>>;

    open spec fn view(&self) -> Seq<Tree<T>> {
        forest(self.children@)
    }
}

impl<'a, T> View for ArenaMutChildren<'a, T> {
    type V = Seq<Tree<T>>;

    open spec fn view(&self) -> Seq<Tree<T>> {
        forest(self.children@)
    }
}

impl<'a, T> View for ArenaRef<'a, T> {
    type V = Located<T>;

    open spec fn view(&self) -> Located<T> {
        Located {
            parent_id: self.parent_id,
            tree: Tree { id: self.children.id->0, item: *self.item, children: self.children@ },
        }
    }
}

impl<'a, T> View for ArenaMut<'a, T> {
    type V = Located<T>;

    open spec fn view(&self) -> Located<T> {
        Located {
            parent_id: self.parent_id,
            tree: Tree { id: self.children.id->0, item: *self.item, children: self.children@ },
        }
    }
}

/// The position of the first node keyed `id` among `nodes`.
fn position_of<T>(nodes: &Vec<TreeNode<T>>, id: u64) -> (r: Option<usize>)
    ensures
        r is Some <==> tree::child_index(forest(nodes@), id) is Some,
        r matches Some(i) ==> tree::child_index(forest(nodes@), id) == Some(i as int) && i
            < nodes.len() && nodes[i as int].id == id,
{
    let mut i: usize = 0;
    while i < nodes.len()
        invariant
            0 <= i <= nodes.len(),
            tree::child_index(forest(nodes@), id) == tree::child_index_from(
                forest(nodes@),
                i as int,
                id,
            ),
        decreases nodes.len() - i,
    {
        if nodes[i].id == id {
            return Some(i);
        }
        i = i + 1;
    }
    None
}

/// Depth-first search for `id` below `nodes`, which the node keyed `parent`
/// owns.
fn find_in<'a, T>(nodes: &'a Vec<TreeNode<T>>, parent: Option<u64>, id: u64) -> (r: Option<
    ArenaRef<'a, T>,
>)
    ensures
        r is Some <==> tree::locate(forest(nodes@), parent, id) is Some,
        r matches Some(n) ==> n.children.id == Some(id) && Some(n@) == tree::locate(
            forest(nodes@),
            parent,
            id,
        ),
    decreases nodes,
{
    let mut i: usize = 0;
    while i < nodes.len()
        invariant
            0 <= i <= nodes.len(),
            tree::locate(forest(nodes@), parent, id) == tree::locate_from(
                forest(nodes@),
                i as int,
                parent,
                id,
            ),
        decreases nodes.len() - i,
    {
        let node = &nodes[i];
        if node.id == id {
            return Some(
                ArenaRef {
                    parent_id: parent,
                    item: &node.item,
                    children: ArenaRefChildren { id: Some(id), children: &node.children },
                },
            );
        }
        match find_in(&node.children, Some(node.id), id) {
            Some(found) => {
                return Some(found);
            },
            None => {},
        }
        i = i + 1;
    }
    None
}

/// Depth-first search for `id` below `nodes`, handing out the node found for
/// writing. The forest afterwards is the forest before with that node replaced
/// by what the caller leaves behind the two references.
fn find_mut_in<'a, T>(nodes: &'a mut Vec<TreeNode<T>>, parent: Option<u64>, id: u64) -> (r: Option<
    ArenaMut<'a, T>,
>)
    ensures
        r is Some <==> tree::locate(forest(old(nodes)@), parent, id) is Some,
        r matches Some(n) ==> n.children.id == Some(id) && Some(n@) == tree::locate(
            forest(old(nodes)@),
            parent,
            id,
        ) && forest(final(nodes)@) == tree::replace(
            forest(old(nodes)@),
            id,
            Tree { id: id, item: *final(n.item), children: forest(final(n.children.children)@) },
        ),
        r is None ==> final(nodes)@ == old(nodes)@,
    decreases old(nodes)@,
{
    let mut i: usize = 0;
    while i < nodes.len()
        invariant
            0 <= i <= nodes.len(),
            nodes@ == old(nodes)@,
            tree::locate(forest(nodes@), parent, id) == tree::locate_from(
                forest(nodes@),
                i as int,
                parent,
                id,
            ),
            forall|t: Tree<T>| #[trigger]
                tree::replace(forest(nodes@), id, t) == tree::replace_from(
                    forest(nodes@),
                    i as int,
                    id,
                    t,
                ),
        decreases nodes.len() - i,
    {
        if nodes[i].id == id {
            let node = &mut nodes[i];
            return Some(
                ArenaMut {
                    parent_id: parent,
                    item: &mut node.item,
                    children: ArenaMutChildren { id: Some(id), children: &mut node.children },
                },
            );
        }
        let below = find_in(&nodes[i].children, Some(nodes[i].id), id).is_some();
        if below {
            let node = &mut nodes[i];
            let key = node.id;
            return find_mut_in(&mut node.children, Some(key), id);
        }
        i = i + 1;
    }
    None
}

impl<T> TreeArena<T> {
    /// An empty forest.
    pub fn new() -> (arena: Self)
        ensures
            arena@ == Seq::<Tree<T>>::empty(),
    {
        let arena = TreeArena { roots: Vec::new() };
        assert(arena@ =~= Seq::<Tree<T>>::empty());
        arena
    }

    /// Shared access to the roots of the forest.
    pub fn root_token(&self) -> (r: ArenaRefChildren<'_, T>)
        ensures
            r.id is None,
            r.children@ == self.roots@,
    {
        ArenaRefChildren { id: None, children: &self.roots }
    }

    /// Exclusive access to the roots of the forest: the roots afterwards are
    /// what the caller leaves behind the handle.
    pub fn root_token_mut(&mut self) -> (r: ArenaMutChildren<'_, T>)
        ensures
            r.id is None,
            r.children@ == old(self).roots@,
            final(self).roots == *final(r.children),
    {
        ArenaMutChildren { id: None, children: &mut self.roots }
    }

    /// The node keyed `id`, wherever it is in the forest.
    pub fn find(&self, id: u64) -> (r: Option<ArenaRef<'_, T>>)
        ensures
            r is Some <==> tree::contains(self@, id),
            r matches Some(n) ==> n.children.id == Some(id) && Some(n@) == tree::locate(
                self@,
                None,
                id,
            ),
    {
        find_in(&self.roots, None, id)
    }

    /// The node keyed `id`, wherever it is in the forest, for writing. The
    /// forest afterwards differs from the forest before in that node alone.
    pub fn find_mut(&mut self, id: u64) -> (r: Option<ArenaMut<'_, T>>)
        ensures
            r is Some <==> tree::contains(old(self)@, id),
            r matches Some(n) ==> n.children.id == Some(id) && Some(n@) == tree::locate(
                old(self)@,
                None,
                id,
            ) && final(self)@ == tree::replace(
                old(self)@,
                id,
                Tree {
                    id: id,
                    item: *final(n.item),
                    children: forest(final(n.children.children)@),
                },
            ),
            r is None ==> final(self)@ == old(self)@,
    {
        find_mut_in(&mut self.roots, None, id)
    }
}

impl<'a, T> ArenaRefChildren<'a, T> {
    /// Whether one of these children is keyed `id`.
    pub fn has_child(&self, id: u64) -> (b: bool)
        ensures
            b == (tree::child_index(self@, id) is Some),
    {
        position_of(self.children, id).is_some()
    }

    /// The child keyed `id`, if there is one; the first, if there are several.
    pub fn get_child(&self, id: u64) -> (r: Option<ArenaRef<'a, T>>)
        ensures
            r is Some <==> tree::child_index(self@, id) is Some,
            r matches Some(n) ==> n.children.id == Some(id) && n@ == (Located {
                parent_id: self.id,
                tree: self@[tree::child_index(self@, id)->0],
            }),
    {
        match position_of(self.children, id) {
            Some(i) => {
                let node = &self.children[i];
                Some(
                    ArenaRef {
                        parent_id: self.id,
                        item: &node.item,
                        children: ArenaRefChildren { id: Some(id), children: &node.children },
                    },
                )
            },
            None => None,
        }
    }

    /// The node keyed `id` among these children and everything below them.
    pub fn find(&self, id: u64) -> (r: Option<ArenaRef<'a, T>>)
        ensures
            r is Some <==> tree::contains(self@, id),
            r matches Some(n) ==> n.children.id == Some(id) && Some(n@) == tree::locate(
                self@,
                self.id,
                id,
            ),
    {
        proof {
            tree_laws::lemma_locate_parent(self@, 0, self.id, None, id);
        }
        find_in(self.children, self.id, id)
    }
}

impl<'a, T> ArenaMutChildren<'a, T> {
    /// Whether one of these children is keyed `id`.
    pub fn has_child(&self, id: u64) -> (b: bool)
        ensures
            b == (tree::child_index(self@, id) is Some),
    {
        position_of(self.children, id).is_some()
    }

    /// The child keyed `id`, if there is one; the first, if there are several.
    pub fn get_child(&self, id: u64) -> (r: Option<ArenaRef<'_, T>>)
        ensures
            r is Some <==> tree::child_index(self@, id) is Some,
            r matches Some(n) ==> n.children.id == Some(id) && n@ == (Located {
                parent_id: self.id,
                tree: self@[tree::child_index(self@, id)->0],
            }),
    {
        match position_of(self.children, id) {
            Some(i) => {
                let node = &self.children[i];
                Some(
                    ArenaRef {
                        parent_id: self.id,
                        item: &node.item,
                        children: ArenaRefChildren { id: Some(id), children: &node.children },
                    },
                )
            },
            None => None,
        }
    }

    /// The child keyed `id` for writing. These children afterwards are the
    /// children before, with that child's payload and children replaced by
    /// what the caller leaves behind the references.
    pub fn get_child_mut(&mut self, id: u64) -> (r: Option<ArenaMut<'_, T>>)
        ensures
            r is Some <==> tree::child_index(old(self)@, id) is Some,
            r matches Some(n) ==> n.children.id == Some(id) && n@ == (Located {
                parent_id: old(self).id,
                tree: old(self)@[tree::child_index(old(self)@, id)->0],
            }) && final(self)@ == old(self)@.update(
                tree::child_index(old(self)@, id)->0,
                Tree {
                    id: id,
                    item: *final(n.item),
                    children: forest(final(n.children.children)@),
                },
            ),
            r is None ==> final(self)@ == old(self)@,
            final(self).id == old(self).id,
            *final(final(self).children) == *final(old(self).children),
    {
        match position_of(self.children, id) {
            Some(i) => {
                let node = &mut self.children[i];
                Some(
                    ArenaMut {
                        parent_id: self.id,
                        item: &mut node.item,
                        children: ArenaMutChildren { id: Some(id), children: &mut node.children },
                    },
                )
            },
            None => None,
        }
    }

    /// Adds a leaf keyed `child_id` after the last of these children.
    pub fn insert_child(&mut self, child_id: u64, value: T)
        ensures
            final(self)@ == old(self)@.push(
                Tree { id: child_id, item: value, children: Seq::empty() },
            ),
            final(self).id == old(self).id,
            *final(final(self).children) == *final(old(self).children),
    {
        let node = TreeNode { id: child_id, item: value, children: Vec::new() };
        assert(forest(node.children@) =~= Seq::<Tree<T>>::empty());
        self.children.push(node);
        assert(forest(self.children@) =~= forest(old(self).children@).push(node@));
    }

    /// Takes the first child keyed `child_id` out, with everything below it,
    /// and hands back its payload.
    pub fn remove_child(&mut self, child_id: u64) -> (r: Option<T>)
        ensures
            match tree::child_index(old(self)@, child_id) {
                Some(i) => r == Some(old(self)@[i].item) && final(self)@ == old(self)@.remove(i),
                None => r is None && final(self)@ == old(self)@,
            },
            final(self).id == old(self).id,
            *final(final(self).children) == *final(old(self).children),
    {
        match position_of(self.children, child_id) {
            Some(i) => {
                let node = self.children.remove(i);
                assert(forest(self.children@) =~= forest(old(self).children@).remove(i as int));
                Some(node.item)
            },
            None => None,
        }
    }

    /// The node keyed `id` among these children and everything below them.
    pub fn find(&self, id: u64) -> (r: Option<ArenaRef<'_, T>>)
        ensures
            r is Some <==> tree::contains(self@, id),
            r matches Some(n) ==> n.children.id == Some(id) && Some(n@) == tree::locate(
                self@,
                self.id,
                id,
            ),
    {
        proof {
            tree_laws::lemma_locate_parent(self@, 0, self.id, None, id);
        }
        find_in(self.children, self.id, id)
    }

    /// The node keyed `id` among these children and everything below them,
    /// for writing. The children afterwards differ from the children before in
    /// that node alone.
    pub fn find_mut(&mut self, id: u64) -> (r: Option<ArenaMut<'_, T>>)
        ensures
            r is Some <==> tree::contains(old(self)@, id),
            r matches Some(n) ==> n.children.id == Some(id) && Some(n@) == tree::locate(
                old(self)@,
                old(self).id,
                id,
            ) && final(self)@ == tree::replace(
                old(self)@,
                id,
                Tree {
                    id: id,
                    item: *final(n.item),
                    children: forest(final(n.children.children)@),
                },
            ),
            r is None ==> final(self)@ == old(self)@,
            final(self).id == old(self).id,
            *final(final(self).children) == *final(old(self).children),
    {
        proof {
            tree_laws::lemma_locate_parent(old(self)@, 0, old(self).id, None, id);
        }
        find_mut_in(self.children, self.id, id)
    }
}

} // verus!
