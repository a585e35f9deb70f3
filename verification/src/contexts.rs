//! What a pass hands a widget to work on: the widget's own record and, through
//! a handle into the tree of records, the records of everything below it.

use crate::geometry::Point;
use crate::tree;
use crate::tree::Tree;
use crate::tree_arena;
use crate::tree_laws;
use crate::tree_arena::ArenaMutChildren;
use crate::widget::{Widget, WidgetMut};
use crate::widget_id::WidgetId;
use crate::widget_pod::WidgetPod;
use crate::widget_state::WidgetState;
use vstd::prelude::*;

verus! {

/// What a context gives a widget to work on: the widget's own record and the
/// records of everything below it.
pub struct StateScope {
    pub state: WidgetState,
    pub children: Seq<Tree<WidgetState>>,
}

impl StateScope {
    /// Whether one of the records directly below belongs to `id`.
    pub open spec fn has_child(self, id: WidgetId) -> bool {
        tree::child_index(self.children, id.0) is Some
    }

    /// The scope of the child `id`: its record and what lies below it.
    pub open spec fn child(self, id: WidgetId) -> StateScope {
        let node = self.children[tree::child_index(self.children, id.0)->0];
        StateScope { state: node.item, children: node.children }
    }

    /// This scope with the scope of the child `id` replaced by `child`.
    pub open spec fn with_child(self, id: WidgetId, child: StateScope) -> StateScope {
        StateScope {
            state: self.state,
            children: self.children.update(
                tree::child_index(self.children, id.0)->0,
                Tree { id: id.0, item: child.state, children: child.children },
            ),
        }
    }

    /// This scope with the child `id` put at `origin`, and nothing else
    /// changed.
    pub open spec fn placed(self, id: WidgetId, origin: Point) -> StateScope {
        let child = self.child(id);
        self.with_child(
            id,
            StateScope { state: child.state.placed_at(origin), children: child.children },
        )
    }
}

/// The context of the passes that deliver input.
pub struct EventCtx<'a> {
    pub widget_state: &'a mut WidgetState,
    pub widget_state_children: ArenaMutChildren<'a, WidgetState>,
}

/// The context of the passes that deliver notices.
pub struct LifeCycleCtx<'a> {
    pub widget_state: &'a mut WidgetState,
    pub widget_state_children: ArenaMutChildren<'a, WidgetState>,
}

/// The context of the layout pass.
pub struct LayoutCtx<'a> {
    pub widget_state: &'a mut WidgetState,
    pub widget_state_children: ArenaMutChildren<'a, WidgetState>,
}

/// The context of the paint pass.
pub struct PaintCtx<'a> {
    pub widget_state: &'a mut WidgetState,
    pub widget_state_children: ArenaMutChildren<'a, WidgetState>,
}

/// The context of the pass that builds the accessibility tree.
pub struct AccessCtx<'a> {
    pub widget_state: &'a mut WidgetState,
    pub widget_state_children: ArenaMutChildren<'a, WidgetState>,
}

/// The context in which a widget is changed from outside a pass.
pub struct MutateCtx<'a> {
    pub widget_state: &'a mut WidgetState,
    pub widget_state_children: ArenaMutChildren<'a, WidgetState>,
}

impl<'a> View for EventCtx<'a> {
    type V = StateScope;

    open spec fn view(&self) -> StateScope {
        StateScope { state: *self.widget_state, children: self.widget_state_children@ }
    }
}

impl<'a> View for LifeCycleCtx<'a> {
    type V = StateScope;

    open spec fn view(&self) -> StateScope {
        StateScope { state: *self.widget_state, children: self.widget_state_children@ }
    }
}

impl<'a> View for LayoutCtx<'a> {
    type V = StateScope;

    open spec fn view(&self) -> StateScope {
        StateScope { state: *self.widget_state, children: self.widget_state_children@ }
    }
}

impl<'a> View for PaintCtx<'a> {
    type V = StateScope;

    open spec fn view(&self) -> StateScope {
        StateScope { state: *self.widget_state, children: self.widget_state_children@ }
    }
}

impl<'a> View for AccessCtx<'a> {
    type V = StateScope;

    open spec fn view(&self) -> StateScope {
        StateScope { state: *self.widget_state, children: self.widget_state_children@ }
    }
}

impl<'a> View for MutateCtx<'a> {
    type V = StateScope;

    open spec fn view(&self) -> StateScope {
        StateScope { state: *self.widget_state, children: self.widget_state_children@ }
    }
}

impl<'a> LayoutCtx<'a> {
    /// Records where this widget puts its child: the child's record gets
    /// `origin`, and nothing else changes.
    pub fn place_child<W: Widget>(&mut self, child: &mut WidgetPod<W>, origin: Point)
        requires
            old(self)@.has_child(old(child).id),
        ensures
            final(self)@ == old(self)@.placed(old(child).id, origin),
            tree::child_index(final(self)@.children, old(child).id.0) == tree::child_index(
                old(self)@.children,
                old(child).id.0,
            ),
            *final(child) == *old(child),
            final(self).widget_state_children.id == old(self).widget_state_children.id,
            *final(final(self).widget_state) == *final(old(self).widget_state),
            *final(final(self).widget_state_children.children)
                == *final(old(self).widget_state_children.children),
    {
        proof {
            tree_laws::lemma_child_index_from(self@.children, 0, child.id.0);
            tree_laws::lemma_child_index_update(
                self@.children,
                0,
                child.id.0,
                tree::child_index(self@.children, child.id.0)->0,
                self@.placed(child.id, origin).children[tree::child_index(
                    self@.children,
                    child.id.0,
                )->0],
            );
        }
        let node = self.widget_state_children.get_child_mut(child.id.to_raw()).unwrap();
        node.item.origin = origin;
    }
}

impl<'a> MutateCtx<'a> {
    /// The child behind `child` for changing: the widget itself and a context
    /// over its record. What the caller leaves behind the two is what this
    /// context and `child` hold afterwards.
    pub fn get_mut<'c, Child: Widget>(
        &'c mut self,
        child: &'c mut WidgetPod<Child>,
    ) -> (r: WidgetMut<'c, Child>)
        requires
            old(self)@.has_child(old(child).id),
        ensures
            r.ctx@ == old(self)@.child(old(child).id),
            r.ctx.widget_state_children.id == Some(old(child).id.0),
            *r.widget == old(child).inner,
            final(self)@ == old(self)@.with_child(
                old(child).id,
                StateScope {
                    state: *final(r.ctx.widget_state),
                    children: tree_arena::forest(final(r.ctx.widget_state_children.children)@),
                },
            ),
            final(child).id == old(child).id,
            final(child).inner == *final(r.widget),
            final(self).widget_state_children.id == old(self).widget_state_children.id,
            *final(final(self).widget_state) == *final(old(self).widget_state),
            *final(final(self).widget_state_children.children)
                == *final(old(self).widget_state_children.children),
    {
        let node = self.widget_state_children.get_child_mut(child.id.to_raw()).unwrap();
        let ctx = MutateCtx { widget_state: node.item, widget_state_children: node.children };
        WidgetMut { ctx, widget: &mut child.inner }
    }
}

} // verus!
