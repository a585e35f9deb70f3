//! The slot in which a widget holds a child.

use crate::contexts::{AccessCtx, LayoutCtx, LifeCycleCtx, PaintCtx, StateScope};
use crate::event::LifeCycle;
use crate::geometry::{BoxConstraints, Size};
use crate::tree;
use crate::tree::Tree;
use crate::tree_laws;
use crate::widget::Widget;
use crate::widget_id::WidgetId;
use crate::widget_state::WidgetState;
use vello::Scene;
use vstd::prelude::*;

verus! {

/// The slot in which a widget holds one child: the child's identifier and
/// the child.
pub struct WidgetPod<W> {
    pub id: WidgetId,
    pub inner: W,
}

impl<W: Widget> WidgetPod<W> {
    /// Whether `children` hold a record for this child, and below it what the
    /// child asks for.
    pub open spec fn attached(&self, children: Seq<Tree<WidgetState>>) -> bool {
        match tree::child_index(children, self.id.0) {
            Some(i) => self.inner.attached(children[i].children),
            None => false,
        }
    }

    /// Whether `lifecycle` may turn `before` into `after`: the child ran on
    /// its own scope with `event`, and nothing else changed.
    pub open spec fn lifecycle_spec(
        &self,
        before: StateScope,
        event: LifeCycle,
        after: StateScope,
    ) -> bool {
        exists|inner_after: StateScope|
            {
                &&& #[trigger] self.inner.lifecycle_spec(before.child(self.id), event, inner_after)
                &&& after == before.with_child(self.id, inner_after)
            }
    }

    /// Whether `layout` may turn `before` into `after` and report `size`:
    /// the child ran on its own scope under `bc` and reported `size`, which
    /// its record then holds, and nothing else changed.
    pub open spec fn layout_spec(
        &self,
        before: StateScope,
        bc: BoxConstraints,
        after: StateScope,
        size: Size,
    ) -> bool {
        exists|inner_after: StateScope|
            {
                &&& #[trigger] self.inner.layout_spec(before.child(self.id), bc, inner_after, size)
                &&& after == before.with_child(
                    self.id,
                    StateScope {
                        state: inner_after.state.laid_out(size),
                        children: inner_after.children,
                    },
                )
            }
    }

    /// Whether `paint` may turn `before` and `scene` into `after` and
    /// `painted`: the child ran on its own scope and on `scene`, and nothing
    /// else changed.
    pub open spec fn paint_spec(
        &self,
        before: StateScope,
        scene: Scene,
        after: StateScope,
        painted: Scene,
    ) -> bool {
        exists|inner_after: StateScope|
            {
                &&& #[trigger] self.inner.paint_spec(
                    before.child(self.id),
                    scene,
                    inner_after,
                    painted,
                )
                &&& after == before.with_child(self.id, inner_after)
            }
    }

    /// Whether `accessibility` may turn `before` into `after`: the child ran
    /// on its own scope, and nothing else changed.
    pub open spec fn accessibility_spec(&self, before: StateScope, after: StateScope) -> bool {
        exists|inner_after: StateScope|
            {
                &&& #[trigger] self.inner.accessibility_spec(before.child(self.id), inner_after)
                &&& after == before.with_child(self.id, inner_after)
            }
    }

    /// A slot that holds `inner` under the identifier `id`.
    pub fn new(inner: W, id: WidgetId) -> (pod: Self)
        ensures
            pod.id == id,
            pod.inner == inner,
    {
        WidgetPod { id, inner }
    }

    /// The identifier of the child.
    pub fn id(&self) -> (id: WidgetId)
        ensures
            id == self.id,
    {
        self.id
    }

    /// Hands `event` to the child, in a context over the child's own record.
    pub fn lifecycle(&mut self, parent_ctx: &mut LifeCycleCtx<'_>, event: &LifeCycle)
        requires
            old(self).attached(old(parent_ctx)@.children),
        ensures
            old(self).lifecycle_spec(old(parent_ctx)@, *event, final(parent_ctx)@),
            final(self).attached(final(parent_ctx)@.children),
            final(self).id == old(self).id,
            tree::child_index(final(parent_ctx)@.children, old(self).id.0) == tree::child_index(
                old(parent_ctx)@.children,
                old(self).id.0,
            ),
            final(parent_ctx).widget_state_children.id == old(parent_ctx).widget_state_children.id,
            *final(final(parent_ctx).widget_state) == *final(old(parent_ctx).widget_state),
            *final(final(parent_ctx).widget_state_children.children)
                == *final(old(parent_ctx).widget_state_children.children),
    {
        let ghost before = parent_ctx@;
        let ghost mut inner_after = before;
        let node = parent_ctx.widget_state_children.get_child_mut(self.id.to_raw()).unwrap();
        let mut ctx =
            LifeCycleCtx { widget_state: node.item, widget_state_children: node.children };
        self.inner.lifecycle(&mut ctx, event);
        proof {
            inner_after = ctx@;
        }
        proof {
            let i = tree::child_index(before.children, self.id.0)->0;
            tree_laws::lemma_child_index_from(before.children, 0, self.id.0);
            tree_laws::lemma_child_index_update(
                before.children,
                0,
                self.id.0,
                i,
                Tree { id: self.id.0, item: ctx@.state, children: ctx@.children },
            );
            assert(old(self).inner.lifecycle_spec(before.child(self.id), *event, inner_after));
        }
    }

    /// Lays the child out under `bc`, in a context over the child's own
    /// record, writes the size that the child reports into that record, and
    /// hands the size on.
    pub fn layout(&mut self, parent_ctx: &mut LayoutCtx<'_>, bc: &BoxConstraints) -> (size: Size)
        requires
            old(self).attached(old(parent_ctx)@.children),
        ensures
            old(self).layout_spec(old(parent_ctx)@, *bc, final(parent_ctx)@, size),
            final(self).attached(final(parent_ctx)@.children),
            final(self).id == old(self).id,
            tree::child_index(final(parent_ctx)@.children, old(self).id.0) == tree::child_index(
                old(parent_ctx)@.children,
                old(self).id.0,
            ),
            final(parent_ctx).widget_state_children.id == old(parent_ctx).widget_state_children.id,
            *final(final(parent_ctx).widget_state) == *final(old(parent_ctx).widget_state),
            *final(final(parent_ctx).widget_state_children.children)
                == *final(old(parent_ctx).widget_state_children.children),
    {
        let ghost before = parent_ctx@;
        let ghost mut inner_after = before;
        let node = parent_ctx.widget_state_children.get_child_mut(self.id.to_raw()).unwrap();
        let mut ctx = LayoutCtx { widget_state: node.item, widget_state_children: node.children };
        let size = self.inner.layout(&mut ctx, bc);
        proof {
            inner_after = ctx@;
        }
        ctx.widget_state.size = size;
        ctx.widget_state.needs_layout = false;
        proof {
            let i = tree::child_index(before.children, self.id.0)->0;
            tree_laws::lemma_child_index_from(before.children, 0, self.id.0);
            tree_laws::lemma_child_index_update(
                before.children,
                0,
                self.id.0,
                i,
                Tree { id: self.id.0, item: ctx@.state, children: ctx@.children },
            );
            assert(old(self).inner.layout_spec(before.child(self.id), *bc, inner_after, size));
        }
        size
    }

    /// Has the child paint into `scene`, in a context over the child's own
    /// record.
    pub fn paint(&mut self, parent_ctx: &mut PaintCtx<'_>, scene: &mut Scene)
        requires
            old(self).attached(old(parent_ctx)@.children),
        ensures
            old(self).paint_spec(
                old(parent_ctx)@,
                *old(scene),
                final(parent_ctx)@,
                *final(scene),
            ),
            final(self).attached(final(parent_ctx)@.children),
            final(self).id == old(self).id,
            tree::child_index(final(parent_ctx)@.children, old(self).id.0) == tree::child_index(
                old(parent_ctx)@.children,
                old(self).id.0,
            ),
            final(parent_ctx).widget_state_children.id == old(parent_ctx).widget_state_children.id,
            *final(final(parent_ctx).widget_state) == *final(old(parent_ctx).widget_state),
            *final(final(parent_ctx).widget_state_children.children)
                == *final(old(parent_ctx).widget_state_children.children),
    {
        let ghost before = parent_ctx@;
        let ghost mut inner_after = before;
        let node = parent_ctx.widget_state_children.get_child_mut(self.id.to_raw()).unwrap();
        let mut ctx = PaintCtx { widget_state: node.item, widget_state_children: node.children };
        self.inner.paint(&mut ctx, scene);
        proof {
            inner_after = ctx@;
        }
        proof {
            let i = tree::child_index(before.children, self.id.0)->0;
            tree_laws::lemma_child_index_from(before.children, 0, self.id.0);
            tree_laws::lemma_child_index_update(
                before.children,
                0,
                self.id.0,
                i,
                Tree { id: self.id.0, item: ctx@.state, children: ctx@.children },
            );
            assert(old(self).inner.paint_spec(
                before.child(self.id),
                *old(scene),
                inner_after,
                *scene,
            ));
        }
    }

    /// Has the child describe itself to the accessibility tree, in a context
    /// over the child's own record.
    pub fn accessibility(&mut self, parent_ctx: &mut AccessCtx<'_>)
        requires
            old(self).attached(old(parent_ctx)@.children),
        ensures
            old(self).accessibility_spec(old(parent_ctx)@, final(parent_ctx)@),
            final(self).attached(final(parent_ctx)@.children),
            final(self).id == old(self).id,
            tree::child_index(final(parent_ctx)@.children, old(self).id.0) == tree::child_index(
                old(parent_ctx)@.children,
                old(self).id.0,
            ),
            final(parent_ctx).widget_state_children.id == old(parent_ctx).widget_state_children.id,
            *final(final(parent_ctx).widget_state) == *final(old(parent_ctx).widget_state),
            *final(final(parent_ctx).widget_state_children.children)
                == *final(old(parent_ctx).widget_state_children.children),
    {
        let ghost before = parent_ctx@;
        let ghost mut inner_after = before;
        let node = parent_ctx.widget_state_children.get_child_mut(self.id.to_raw()).unwrap();
        let mut ctx = AccessCtx { widget_state: node.item, widget_state_children: node.children };
        self.inner.accessibility(&mut ctx);
        proof {
            inner_after = ctx@;
        }
        proof {
            let i = tree::child_index(before.children, self.id.0)->0;
            tree_laws::lemma_child_index_from(before.children, 0, self.id.0);
            tree_laws::lemma_child_index_update(
                before.children,
                0,
                self.id.0,
                i,
                Tree { id: self.id.0, item: ctx@.state, children: ctx@.children },
            );
            assert(old(self).inner.accessibility_spec(before.child(self.id), inner_after));
        }
    }
}

} // verus!
