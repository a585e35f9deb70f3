//! The two trees that hold every widget and its record, and the access to
//! both at once.

use crate::tree;
use crate::tree::Tree;
use crate::tree_arena;
use crate::tree_arena::{ArenaMut, ArenaRef, TreeArena};
use crate::tree_laws;
use crate::widget::{Widget, WidgetBox};
use crate::widget_id::WidgetId;
use crate::widget_ref::WidgetRef;
use crate::widget_state::WidgetState;
use vstd::prelude::*;

verus! {

/// Every widget and its record, in two trees of one shape: one of widgets,
/// one of records, keyed alike.
pub struct WidgetArena {
    pub widgets: TreeArena<WidgetBox>,
    pub widget_states: TreeArena<WidgetState>,
}

/// The key that the trees use for `id`.
pub open spec fn raw_key(id: Option<WidgetId>) -> Option<u64> {
    match id {
        Some(id) => Some(id.0),
        None => None,
    }
}

impl WidgetArena {
    /// Whether the tree of widgets holds `id`.
    pub open spec fn holds_widget(&self, id: WidgetId) -> bool {
        tree::contains(self.widgets@, id.0)
    }

    /// Whether the tree of records holds `id`.
    pub open spec fn holds_state(&self, id: WidgetId) -> bool {
        tree::contains(self.widget_states@, id.0)
    }

    /// Whether both trees hold `id`.
    pub open spec fn holds_pair(&self, id: WidgetId) -> bool {
        self.holds_widget(id) && self.holds_state(id)
    }

    /// Whether the two trees are in step: the same keys in the same places,
    /// so that every widget has its record and every record its widget, under
    /// the same parent and with the same children in the same order.
    pub open spec fn synced(&self) -> bool {
        tree::same_shape(self.widgets@, self.widget_states@)
    }

    /// Whether no identifier names two nodes of one tree.
    pub open spec fn distinct(&self) -> bool {
        &&& forall|k: u64| #[trigger] tree::occurrences(self.widgets@, k) <= 1
        &&& forall|k: u64| #[trigger] tree::occurrences(self.widget_states@, k) <= 1
    }

    /// An arena that holds nothing.
    pub fn new() -> (arena: WidgetArena)
        ensures
            arena.widgets@ == Seq::<Tree<WidgetBox>>::empty(),
            arena.widget_states@ == Seq::<Tree<WidgetState>>::empty(),
            arena.synced(),
            arena.distinct(),
    {
        WidgetArena { widgets: TreeArena::new(), widget_states: TreeArena::new() }
    }

    /// Whether the tree of widgets holds `widget_id`.
    pub fn has(&self, widget_id: WidgetId) -> (b: bool)
        ensures
            b == self.holds_widget(widget_id),
    {
        self.widgets.find(widget_id.to_raw()).is_some()
    }

    /// The parent of `widget_id` in the tree of widgets; `None` for a root.
    pub fn parent_of(&self, widget_id: WidgetId) -> (parent: Option<WidgetId>)
        requires
            self.holds_widget(widget_id),
        ensures
            parent == match tree::locate(self.widgets@, None, widget_id.0)->0.parent_id {
                Some(raw) => Some(WidgetId(raw)),
                None => None,
            },
    {
        let widget_ref = self.widgets.find(widget_id.to_raw()).unwrap();
        match widget_ref.parent_id {
            Some(raw) => Some(WidgetId::from_raw(raw)),
            None => None,
        }
    }

    /// The widget and the record of `widget_id`, each with its children.
    pub fn get_pair(&self, widget_id: WidgetId) -> (pair: (
        ArenaRef<'_, WidgetBox>,
        ArenaRef<'_, WidgetState>,
    ))
        requires
            self.holds_pair(widget_id),
        ensures
            pair.0.children.id == Some(widget_id.0),
            pair.1.children.id == Some(widget_id.0),
            Some(pair.0@) == tree::locate(self.widgets@, None, widget_id.0),
            Some(pair.1@) == tree::locate(self.widget_states@, None, widget_id.0),
    {
        let widget = self.widgets.find(widget_id.to_raw()).unwrap();
        let state = self.widget_states.find(widget_id.to_raw()).unwrap();
        (widget, state)
    }

    /// The widget and the record of `widget_id` for writing, both at once.
    /// Each tree afterwards is that tree before with the one node replaced by
    /// what the caller leaves behind its own handle: nothing written through
    /// one handle reaches the other tree.
    pub fn get_pair_mut(&mut self, widget_id: WidgetId) -> (pair: (
        ArenaMut<'_, WidgetBox>,
        ArenaMut<'_, WidgetState>,
    ))
        requires
            old(self).holds_pair(widget_id),
        ensures
            pair.0.children.id == Some(widget_id.0),
            pair.1.children.id == Some(widget_id.0),
            Some(pair.0@) == tree::locate(old(self).widgets@, None, widget_id.0),
            Some(pair.1@) == tree::locate(old(self).widget_states@, None, widget_id.0),
            final(self).widgets@ == tree::replace(
                old(self).widgets@,
                widget_id.0,
                Tree {
                    id: widget_id.0,
                    item: *final(pair.0.item),
                    children: tree_arena::forest(final(pair.0.children.children)@),
                },
            ),
            final(self).widget_states@ == tree::replace(
                old(self).widget_states@,
                widget_id.0,
                Tree {
                    id: widget_id.0,
                    item: *final(pair.1.item),
                    children: tree_arena::forest(final(pair.1.children.children)@),
                },
            ),
    {
        let widget = self.widgets.find_mut(widget_id.to_raw()).unwrap();
        let state = self.widget_states.find_mut(widget_id.to_raw()).unwrap();
        let pair = (widget, state);
        pair
    }

    /// The widget of `widget_id` and its children. The tree of records is
    /// not looked at.
    pub fn get_widget(&self, widget_id: WidgetId) -> (widget: ArenaRef<'_, WidgetBox>)
        requires
            self.holds_widget(widget_id),
        ensures
            widget.children.id == Some(widget_id.0),
            Some(widget@) == tree::locate(self.widgets@, None, widget_id.0),
    {
        self.widgets.find(widget_id.to_raw()).unwrap()
    }

    /// The widget of `widget_id` and its children for writing. The tree of
    /// records stays as it is.
    pub fn get_widget_mut(&mut self, widget_id: WidgetId) -> (widget: ArenaMut<'_, WidgetBox>)
        requires
            old(self).holds_widget(widget_id),
        ensures
            widget.children.id == Some(widget_id.0),
            Some(widget@) == tree::locate(old(self).widgets@, None, widget_id.0),
            final(self).widgets@ == tree::replace(
                old(self).widgets@,
                widget_id.0,
                Tree {
                    id: widget_id.0,
                    item: *final(widget.item),
                    children: tree_arena::forest(final(widget.children.children)@),
                },
            ),
            final(self).widget_states == old(self).widget_states,
    {
        let widget = self.widgets.find_mut(widget_id.to_raw()).unwrap();
        widget
    }

    /// The record of `widget_id` and its children. The tree of widgets is not
    /// looked at.
    pub fn get_state(&mut self, widget_id: WidgetId) -> (state: ArenaRef<'_, WidgetState>)
        requires
            old(self).holds_state(widget_id),
        ensures
            state.children.id == Some(widget_id.0),
            Some(state@) == tree::locate(old(self).widget_states@, None, widget_id.0),
            *final(self) == *old(self),
    {
        self.widget_states.find(widget_id.to_raw()).unwrap()
    }

    /// The record of `widget_id` and its children for writing. The tree of
    /// widgets stays as it is.
    pub fn get_state_mut(&mut self, widget_id: WidgetId) -> (state: ArenaMut<'_, WidgetState>)
        requires
            old(self).holds_state(widget_id),
        ensures
            state.children.id == Some(widget_id.0),
            Some(state@) == tree::locate(old(self).widget_states@, None, widget_id.0),
            final(self).widget_states@ == tree::replace(
                old(self).widget_states@,
                widget_id.0,
                Tree {
                    id: widget_id.0,
                    item: *final(state.item),
                    children: tree_arena::forest(final(state.children.children)@),
                },
            ),
            final(self).widgets == old(self).widgets,
    {
        self.widget_states.find_mut(widget_id.to_raw()).unwrap()
    }

    /// The node of `id` for reading, or `None` where the tree of records does
    /// not hold `id`.
    pub fn try_get_widget_ref(&self, id: WidgetId) -> (r: Option<WidgetRef<'_, dyn Widget>>)
        requires
            self.holds_state(id) ==> self.holds_widget(id),
        ensures
            r is Some <==> self.holds_state(id),
            r matches Some(node) ==> {
                let state = tree::locate(self.widget_states@, None, id.0)->0.tree;
                let widget = tree::locate(self.widgets@, None, id.0)->0.tree;
                &&& node.widget_state_children.id == Some(id.0)
                &&& node.widget_children.id == Some(id.0)
                &&& *node.widget_state == state.item
                &&& node.widget_state_children@ == state.children
                &&& node.widget == &*widget.item.inner
                &&& node.widget_children@ == widget.children
            },
    {
        match self.widget_states.find(id.to_raw()) {
            Some(state_ref) => {
                let widget_ref = self.widgets.find(id.to_raw()).unwrap();
                let widget = &*widget_ref.item.inner;
                let node = WidgetRef {
                    widget_state_children: state_ref.children,
                    widget_children: widget_ref.children,
                    widget_state: state_ref.item,
                    widget,
                };
                Some(node)
            },
            None => None,
        }
    }

    /// Adds a widget and its record to both trees in one step, as the last
    /// child of `parent`, or as the last root where `parent` is `None`.
    /// Nothing is added, and `false` is the answer, unless both trees hold
    /// `parent`. Trees that were in step stay in step.
    pub fn insert_child(
        &mut self,
        parent: Option<WidgetId>,
        id: WidgetId,
        widget: WidgetBox,
        state: WidgetState,
    ) -> (done: bool)
        ensures
            done == (parent matches Some(p) ==> old(self).holds_pair(p)),
            done ==> final(self).widgets@ == tree::with_child(
                old(self).widgets@,
                raw_key(parent),
                Tree { id: id.0, item: widget, children: Seq::empty() },
            ),
            done ==> final(self).widget_states@ == tree::with_child(
                old(self).widget_states@,
                raw_key(parent),
                Tree { id: id.0, item: state, children: Seq::empty() },
            ),
            !done ==> final(self).widgets@ == old(self).widgets@ && final(self).widget_states@
                == old(self).widget_states@,
            done ==> final(self).holds_pair(id),
            old(self).synced() ==> final(self).synced(),
            old(self).distinct() && !old(self).holds_widget(id) && !old(self).holds_state(id)
                ==> final(self).distinct(),
    {
        let key = id.to_raw();
        proof {
            if self.distinct() && !self.holds_widget(id) && !self.holds_state(id) {
                tree_laws::lemma_locate_occurs(self.widgets@, 0, None, id.0);
                tree_laws::lemma_locate_occurs(self.widget_states@, 0, None, id.0);
                assert forall|k: u64|
                    1 >= #[trigger] tree::occurrences(
                        tree::with_child(
                            self.widgets@,
                            raw_key(parent),
                            Tree { id: id.0, item: widget, children: Seq::empty() },
                        ),
                        k,
                    ) by {
                    tree_laws::lemma_with_child_occurrences(
                        self.widgets@,
                        raw_key(parent),
                        Tree { id: id.0, item: widget, children: Seq::empty() },
                        k,
                    );
                    assert(tree::occurrences(self.widgets@, k) <= 1);
                }
                assert forall|k: u64|
                    1 >= #[trigger] tree::occurrences(
                        tree::with_child(
                            self.widget_states@,
                            raw_key(parent),
                            Tree { id: id.0, item: state, children: Seq::empty() },
                        ),
                        k,
                    ) by {
                    tree_laws::lemma_with_child_occurrences(
                        self.widget_states@,
                        raw_key(parent),
                        Tree { id: id.0, item: state, children: Seq::empty() },
                        k,
                    );
                    assert(tree::occurrences(self.widget_states@, k) <= 1);
                }
            }
            if parent matches Some(p) ==> self.holds_pair(p) {
                tree_laws::lemma_added_child_is_present(
                    self.widgets@,
                    raw_key(parent),
                    Tree { id: id.0, item: widget, children: Seq::empty() },
                );
                tree_laws::lemma_added_child_is_present(
                    self.widget_states@,
                    raw_key(parent),
                    Tree { id: id.0, item: state, children: Seq::empty() },
                );
            }
            if self.synced() {
                assert(tree::same_shape(
                    Seq::<Tree<WidgetBox>>::empty(),
                    Seq::<Tree<WidgetState>>::empty(),
                ));
                tree_laws::lemma_same_shape_with_child(
                    self.widgets@,
                    self.widget_states@,
                    raw_key(parent),
                    Tree { id: id.0, item: widget, children: Seq::empty() },
                    Tree { id: id.0, item: state, children: Seq::empty() },
                );
            }
        }
        match parent {
            None => {
                let mut roots = self.widgets.root_token_mut();
                roots.insert_child(key, widget);
                let mut roots = self.widget_states.root_token_mut();
                roots.insert_child(key, state);
                true
            },
            Some(p) => {
                let above = p.to_raw();
                if self.widgets.find(above).is_some() && self.widget_states.find(above).is_some() {
                    proof {
                        tree_laws::lemma_locate_id(self.widgets@, 0, None, above);
                        tree_laws::lemma_locate_id(self.widget_states@, 0, None, above);
                    }
                    let mut node = self.widgets.find_mut(above).unwrap();
                    node.children.insert_child(key, widget);
                    let mut node = self.widget_states.find_mut(above).unwrap();
                    node.children.insert_child(key, state);
                    true
                } else {
                    false
                }
            },
        }
    }

    /// Takes the child `id` of `parent` (the root `id` where `parent` is
    /// `None`) out of both trees in one step, with everything below it.
    /// Nothing is taken out, and `false` is the answer, unless both trees
    /// hold such a child. Trees that were in step stay in step.
    pub fn remove_child(&mut self, parent: Option<WidgetId>, id: WidgetId) -> (done: bool)
        ensures
            done == (tree::has_child(old(self).widgets@, raw_key(parent), id.0) && tree::has_child(
                old(self).widget_states@,
                raw_key(parent),
                id.0,
            )),
            done ==> final(self).widgets@ == tree::without_child(
                old(self).widgets@,
                raw_key(parent),
                id.0,
            ),
            done ==> final(self).widget_states@ == tree::without_child(
                old(self).widget_states@,
                raw_key(parent),
                id.0,
            ),
            !done ==> final(self).widgets@ == old(self).widgets@ && final(self).widget_states@
                == old(self).widget_states@,
            old(self).synced() ==> final(self).synced(),
            old(self).distinct() ==> final(self).distinct(),
            done && old(self).distinct() ==> !final(self).holds_pair(id),
            done && old(self).distinct() ==> !final(self).holds_widget(id),
            done && old(self).distinct() ==> !final(self).holds_state(id),
    {
        let key = id.to_raw();
        proof {
            if self.distinct() {
                if tree::has_child(self.widgets@, raw_key(parent), key) {
                    assert forall|k: u64|
                        1 >= #[trigger] tree::occurrences(
                            tree::without_child(self.widgets@, raw_key(parent), key),
                            k,
                        ) by {
                        tree_laws::lemma_without_child_occurrences(
                            self.widgets@,
                            raw_key(parent),
                            key,
                            k,
                        );
                        assert(tree::occurrences(self.widgets@, k) <= 1);
                    }
                    tree_laws::lemma_without_child_occurrences(
                        self.widgets@,
                        raw_key(parent),
                        key,
                        key,
                    );
                    assert(tree::occurrences(self.widgets@, key) <= 1);
                    tree_laws::lemma_locate_occurs(
                        tree::without_child(self.widgets@, raw_key(parent), key),
                        0,
                        None,
                        key,
                    );
                }
                if tree::has_child(self.widget_states@, raw_key(parent), key) {
                    assert forall|k: u64|
                        1 >= #[trigger] tree::occurrences(
                            tree::without_child(self.widget_states@, raw_key(parent), key),
                            k,
                        ) by {
                        tree_laws::lemma_without_child_occurrences(
                            self.widget_states@,
                            raw_key(parent),
                            key,
                            k,
                        );
                        assert(tree::occurrences(self.widget_states@, k) <= 1);
                    }
                    tree_laws::lemma_without_child_occurrences(
                        self.widget_states@,
                        raw_key(parent),
                        key,
                        key,
                    );
                    assert(tree::occurrences(self.widget_states@, key) <= 1);
                    tree_laws::lemma_locate_occurs(
                        tree::without_child(self.widget_states@, raw_key(parent), key),
                        0,
                        None,
                        key,
                    );
                }
            }
            if self.synced() {
                tree_laws::lemma_same_shape_without_child(
                    self.widgets@,
                    self.widget_states@,
                    raw_key(parent),
                    key,
                );
            }
        }
        match parent {
            None => {
                let in_widgets = self.widgets.root_token().has_child(key);
                let in_states = self.widget_states.root_token().has_child(key);
                if in_widgets && in_states {
                    let mut roots = self.widgets.root_token_mut();
                    let _ = roots.remove_child(key);
                    let mut roots = self.widget_states.root_token_mut();
                    let _ = roots.remove_child(key);
                    true
                } else {
                    false
                }
            },
            Some(p) => {
                let above = p.to_raw();
                proof {
                    tree_laws::lemma_locate_id(self.widgets@, 0, None, above);
                    tree_laws::lemma_locate_id(self.widget_states@, 0, None, above);
                }
                let in_widgets = match self.widgets.find(above) {
                    Some(node) => node.children.has_child(key),
                    None => false,
                };
                let in_states = match self.widget_states.find(above) {
                    Some(node) => node.children.has_child(key),
                    None => false,
                };
                if in_widgets && in_states {
                    let mut node = self.widgets.find_mut(above).unwrap();
                    let _ = node.children.remove_child(key);
                    let mut node = self.widget_states.find_mut(above).unwrap();
                    let _ = node.children.remove_child(key);
                    true
                } else {
                    false
                }
            },
        }
    }

    /// In an arena whose trees are in step, a widget is there exactly where
    /// its record is, and the two have the same parent and the same children
    /// in the same order.
    pub proof fn lemma_in_step(arena: WidgetArena, id: WidgetId)
        requires
            arena.synced(),
        ensures
            arena.holds_widget(id) == arena.holds_state(id),
            arena.holds_widget(id) == arena.holds_pair(id),
            arena.holds_widget(id) ==> {
                let widget = tree::locate(arena.widgets@, None, id.0)->0;
                let state = tree::locate(arena.widget_states@, None, id.0)->0;
                &&& widget.tree.id == id.0
                &&& state.tree.id == id.0
                &&& widget.parent_id == state.parent_id
                &&& tree::root_ids(widget.tree.children) == tree::root_ids(state.tree.children)
            },
    {
        tree_laws::lemma_same_shape_locate(arena.widgets@, arena.widget_states@, 0, None, id.0);
        tree_laws::lemma_locate_id(arena.widgets@, 0, None, id.0);
        if arena.holds_widget(id) {
            let widget = tree::locate(arena.widgets@, None, id.0)->0;
            let state = tree::locate(arena.widget_states@, None, id.0)->0;
            tree_laws::lemma_same_shape_root_ids(widget.tree.children, state.tree.children);
        }
    }

    /// Trees in step stay in step when the widget and the record of `id` are
    /// both written, as through the handles of `get_pair_mut`, and what is left
    /// below the two has one shape.
    pub proof fn lemma_pair_write_keeps_step(
        before: WidgetArena,
        after: WidgetArena,
        id: WidgetId,
        widget: Tree<WidgetBox>,
        state: Tree<WidgetState>,
    )
        requires
            before.synced(),
            widget.id == id.0,
            state.id == id.0,
            tree::same_shape(widget.children, state.children),
            after.widgets@ == tree::replace(before.widgets@, id.0, widget),
            after.widget_states@ == tree::replace(before.widget_states@, id.0, state),
        ensures
            after.synced(),
    {
        tree_laws::lemma_same_shape_replace(
            before.widgets@,
            before.widget_states@,
            0,
            id.0,
            widget,
            state,
        );
    }

    /// Trees in step stay in step when the record of `id` alone is written,
    /// as through the handle of `get_state_mut`, and what is left below it has
    /// the shape of what is below the widget.
    pub proof fn lemma_record_write_keeps_step(
        before: WidgetArena,
        after: WidgetArena,
        id: WidgetId,
        state: Tree<WidgetState>,
    )
        requires
            before.synced(),
            before.holds_widget(id),
            state.id == id.0,
            tree::same_shape(
                tree::locate(before.widgets@, None, id.0)->0.tree.children,
                state.children,
            ),
            after.widgets@ == before.widgets@,
            after.widget_states@ == tree::replace(before.widget_states@, id.0, state),
        ensures
            after.synced(),
    {
        let widget = tree::locate(before.widgets@, None, id.0)->0.tree;
        tree_laws::lemma_locate_id(before.widgets@, 0, None, id.0);
        tree_laws::lemma_replace_found(before.widgets@, 0, None, id.0);
        tree_laws::lemma_same_shape_replace(
            before.widgets@,
            before.widget_states@,
            0,
            id.0,
            widget,
            state,
        );
    }

    /// Trees in step stay in step when the widget `id` alone is written, as
    /// through the handle of `get_widget_mut`, and what is left below it has
    /// the shape of what is below the record.
    pub proof fn lemma_widget_write_keeps_step(
        before: WidgetArena,
        after: WidgetArena,
        id: WidgetId,
        widget: Tree<WidgetBox>,
    )
        requires
            before.synced(),
            before.holds_state(id),
            widget.id == id.0,
            tree::same_shape(
                widget.children,
                tree::locate(before.widget_states@, None, id.0)->0.tree.children,
            ),
            after.widgets@ == tree::replace(before.widgets@, id.0, widget),
            after.widget_states@ == before.widget_states@,
        ensures
            after.synced(),
    {
        let state = tree::locate(before.widget_states@, None, id.0)->0.tree;
        tree_laws::lemma_locate_id(before.widget_states@, 0, None, id.0);
        tree_laws::lemma_replace_found(before.widget_states@, 0, None, id.0);
        tree_laws::lemma_same_shape_replace(
            before.widgets@,
            before.widget_states@,
            0,
            id.0,
            widget,
            state,
        );
    }

    /// No identifier comes to name two nodes when widgets and records are
    /// written, as through the handles of the accessors, and what is left
    /// below each node written has the shape of what was there.
    pub proof fn lemma_write_keeps_distinct(
        before: WidgetArena,
        after: WidgetArena,
        id: WidgetId,
        widget: Tree<WidgetBox>,
        state: Tree<WidgetState>,
    )
        requires
            before.distinct(),
            before.holds_pair(id),
            widget.id == id.0,
            state.id == id.0,
            tree::same_shape(
                tree::locate(before.widgets@, None, id.0)->0.tree.children,
                widget.children,
            ),
            tree::same_shape(
                tree::locate(before.widget_states@, None, id.0)->0.tree.children,
                state.children,
            ),
            after.widgets@ == tree::replace(before.widgets@, id.0, widget),
            after.widget_states@ == tree::replace(before.widget_states@, id.0, state),
        ensures
            after.distinct(),
            forall|k: WidgetId| after.holds_widget(k) == before.holds_widget(k),
            forall|k: WidgetId| after.holds_state(k) == before.holds_state(k),
    {
        assert forall|k: u64| 1 >= #[trigger] tree::occurrences(after.widgets@, k) by {
            tree_laws::lemma_replace_keeps_keys(before.widgets@, id.0, widget, k);
            assert(tree::occurrences(before.widgets@, k) <= 1);
        }
        assert forall|k: u64| 1 >= #[trigger] tree::occurrences(after.widget_states@, k) by {
            tree_laws::lemma_replace_keeps_keys(before.widget_states@, id.0, state, k);
            assert(tree::occurrences(before.widget_states@, k) <= 1);
        }
        assert forall|k: WidgetId| after.holds_widget(k) == before.holds_widget(k) by {
            tree_laws::lemma_replace_keeps_keys(before.widgets@, id.0, widget, k.0);
        }
        assert forall|k: WidgetId| after.holds_state(k) == before.holds_state(k) by {
            tree_laws::lemma_replace_keeps_keys(before.widget_states@, id.0, state, k.0);
        }
    }

    /// Once the record of `id` has been taken out of its tree and the widget
    /// has not, the two trees are out of step: `id` has a widget and no
    /// record, so that nothing may ask for the pair.
    pub proof fn lemma_record_removed_alone(
        before: WidgetArena,
        after: WidgetArena,
        parent: Option<WidgetId>,
        id: WidgetId,
    )
        requires
            before.distinct(),
            before.holds_widget(id),
            tree::has_child(before.widget_states@, raw_key(parent), id.0),
            after.widget_states@ == tree::without_child(
                before.widget_states@,
                raw_key(parent),
                id.0,
            ),
            after.widgets@ == before.widgets@,
        ensures
            after.holds_widget(id),
            !after.holds_state(id),
            !after.holds_pair(id),
            !after.synced(),
    {
        let f = before.widget_states@;
        assert(tree::occurrences(f, id.0) <= 1);
        tree_laws::lemma_removed_child_is_absent(f, raw_key(parent), id.0);
        if after.synced() {
            Self::lemma_in_step(after, id);
        }
    }

    /// Once the widget `id` has been taken out of its tree and its record has
    /// not, the two trees are out of step: `id` has a record and no widget,
    /// so that nothing may ask for the pair, nor for the node to read.
    pub proof fn lemma_widget_removed_alone(
        before: WidgetArena,
        after: WidgetArena,
        parent: Option<WidgetId>,
        id: WidgetId,
    )
        requires
            before.distinct(),
            before.holds_state(id),
            tree::has_child(before.widgets@, raw_key(parent), id.0),
            after.widgets@ == tree::without_child(before.widgets@, raw_key(parent), id.0),
            after.widget_states@ == before.widget_states@,
        ensures
            after.holds_state(id),
            !after.holds_widget(id),
            !after.holds_pair(id),
            !(after.holds_state(id) ==> after.holds_widget(id)),
            !after.synced(),
    {
        let f = before.widgets@;
        assert(tree::occurrences(f, id.0) <= 1);
        tree_laws::lemma_removed_child_is_absent(f, raw_key(parent), id.0);
        if after.synced() {
            Self::lemma_in_step(after, id);
        }
    }
}

} // verus!
