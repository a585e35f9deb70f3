//! The widget at the root of every tree.

use crate::child_ids;
use crate::child_ids::ChildIds;
use crate::contexts::{AccessCtx, EventCtx, LayoutCtx, LifeCycleCtx, PaintCtx, StateScope};
use crate::event::{AccessEvent, LifeCycle, PointerEvent, StatusChange, TextEvent};
use crate::geometry::{BoxConstraints, Point, Size};
use crate::tree;
use crate::tree::Tree;
use crate::tree_arena;
use crate::tree_laws;
use crate::widget::{Widget, WidgetMut};
use crate::widget_id::WidgetId;
use crate::widget_pod::WidgetPod;
use crate::widget_state::WidgetState;
use accesskit::Role;
use vello::Scene;
use vstd::prelude::*;

verus! {

/// The widget at the top of every tree. It has one child, which it puts at
/// the origin and otherwise only passes things on to; to the accessibility
/// tree it is the window.
pub struct RootWidget<W> {
    pub pod: WidgetPod<W>,
}

impl<W: Widget> RootWidget<W> {
    /// A root around `widget`, which gets the identifier `id`.
    pub fn new(widget: W, id: WidgetId) -> (root: RootWidget<W>)
        ensures
            root.pod.id == id,
            root.pod.inner == widget,
    {
        RootWidget { pod: WidgetPod::new(widget, id) }
    }

    /// A root around the child in `pod`.
    pub fn from_pod(pod: WidgetPod<W>) -> (root: RootWidget<W>)
        ensures
            root.pod == pod,
    {
        RootWidget { pod }
    }
}

impl<W: Widget> WidgetMut<'_, RootWidget<W>> {
    /// The root's child for changing. What the caller leaves behind the
    /// result is what the root and its context hold afterwards.
    pub fn get_element(&mut self) -> (child: WidgetMut<'_, W>)
        requires
            old(self).ctx@.has_child(old(self).widget.pod.id),
        ensures
            child.ctx@ == old(self).ctx@.child(old(self).widget.pod.id),
            child.ctx.widget_state_children.id == Some(old(self).widget.pod.id.0),
            *child.widget == old(self).widget.pod.inner,
            final(self).ctx@ == old(self).ctx@.with_child(
                old(self).widget.pod.id,
                StateScope {
                    state: *final(child.ctx.widget_state),
                    children: tree_arena::forest(final(child.ctx.widget_state_children.children)@),
                },
            ),
            final(self).widget.pod.id == old(self).widget.pod.id,
            final(self).widget.pod.inner == *final(child.widget),
            final(self).ctx.widget_state_children.id == old(self).ctx.widget_state_children.id,
            *final(final(self).ctx.widget_state) == *final(old(self).ctx.widget_state),
            *final(final(self).ctx.widget_state_children.children)
                == *final(old(self).ctx.widget_state_children.children),
            *final(final(self).widget) == *final(old(self).widget),
    {
        self.ctx.get_mut(&mut self.widget.pod)
    }
}

impl<W: Widget> Widget for RootWidget<W> {
    open spec fn attached(&self, children: Seq<Tree<WidgetState>>) -> bool {
        self.pod.attached(children)
    }

    open spec fn lifecycle_spec(
        &self,
        before: StateScope,
        event: LifeCycle,
        after: StateScope,
    ) -> bool {
        self.pod.lifecycle_spec(before, event, after)
    }

    /// The child was laid out on its own scope under the very `bc`; `size`
    /// is what it reported; its record holds that size and the origin
    /// `(0, 0)`; nothing else changed.
    open spec fn layout_spec(
        &self,
        before: StateScope,
        bc: BoxConstraints,
        after: StateScope,
        size: Size,
    ) -> bool {
        exists|inner_after: StateScope|
            {
                &&& #[trigger] self.pod.inner.layout_spec(
                    before.child(self.pod.id),
                    bc,
                    inner_after,
                    size,
                )
                &&& after == before.with_child(
                    self.pod.id,
                    StateScope {
                        state: inner_after.state.laid_out(size).placed_at(Point::spec_origin()),
                        children: inner_after.children,
                    },
                )
            }
    }

    open spec fn paint_spec(
        &self,
        before: StateScope,
        scene: Scene,
        after: StateScope,
        painted: Scene,
    ) -> bool {
        self.pod.paint_spec(before, scene, after, painted)
    }

    open spec fn accessibility_spec(&self, before: StateScope, after: StateScope) -> bool {
        self.pod.accessibility_spec(before, after)
    }

    /// The root takes no input from a pointer.
    fn on_pointer_event(&mut self, ctx: &mut EventCtx<'_>, event: &PointerEvent)
        ensures
            *final(self) == *old(self),
            final(ctx)@ == old(ctx)@,
    {
    }

    /// The root takes no text input.
    fn on_text_event(&mut self, ctx: &mut EventCtx<'_>, event: &TextEvent)
        ensures
            *final(self) == *old(self),
            final(ctx)@ == old(ctx)@,
    {
    }

    /// The root answers no request of the accessibility platform.
    fn on_access_event(&mut self, ctx: &mut EventCtx<'_>, event: &AccessEvent)
        ensures
            *final(self) == *old(self),
            final(ctx)@ == old(ctx)@,
    {
    }

    /// A change of its status leaves the root as it is.
    fn on_status_change(&mut self, ctx: &mut LifeCycleCtx<'_>, event: &StatusChange)
        ensures
            *final(self) == *old(self),
            final(ctx)@ == old(ctx)@,
    {
    }

    /// Hands `event` on to the child, as it came.
    fn lifecycle(&mut self, ctx: &mut LifeCycleCtx<'_>, event: &LifeCycle)
        ensures
            old(self).pod.lifecycle_spec(old(ctx)@, *event, final(ctx)@),
            final(self).pod.id == old(self).pod.id,
            tree::child_index(final(ctx)@.children, old(self).pod.id.0) == tree::child_index(
                old(ctx)@.children,
                old(self).pod.id.0,
            ),
    {
        self.pod.lifecycle(ctx, event);
    }

    /// Lays the child out under `bc`, puts it at the origin, and answers
    /// with the child's size.
    fn layout(&mut self, ctx: &mut LayoutCtx<'_>, bc: &BoxConstraints) -> (size: Size)
        ensures
            old(self).layout_spec(old(ctx)@, *bc, final(ctx)@, size),
            final(self).pod.id == old(self).pod.id,
            tree::child_index(final(ctx)@.children, old(self).pod.id.0) == tree::child_index(
                old(ctx)@.children,
                old(self).pod.id.0,
            ),
            final(ctx)@.child(old(self).pod.id).state.size == size,
            final(ctx)@.child(old(self).pod.id).state.origin == Point::spec_origin(),
            final(ctx)@.state == old(ctx)@.state,
    {
        let ghost before = ctx@;
        let size = self.pod.layout(ctx, bc);
        let ghost mid = ctx@;
        ctx.place_child(&mut self.pod, Point::origin());
        proof {
            let id = old(self).pod.id;
            let i = tree::child_index(before.children, id.0)->0;
            tree_laws::lemma_child_index_from(before.children, 0, id.0);
            let inner_after = choose|inner_after: StateScope|
                {
                    &&& #[trigger] old(self).pod.inner.layout_spec(
                        before.child(id),
                        *bc,
                        inner_after,
                        size,
                    )
                    &&& mid == before.with_child(
                        id,
                        StateScope {
                            state: inner_after.state.laid_out(size),
                            children: inner_after.children,
                        },
                    )
                };
            tree_laws::lemma_child_index_update(
                before.children,
                0,
                id.0,
                i,
                Tree {
                    id: id.0,
                    item: inner_after.state.laid_out(size),
                    children: inner_after.children,
                },
            );
            tree_laws::lemma_child_index_from(mid.children, 0, id.0);
            tree_laws::lemma_child_index_update(
                mid.children,
                0,
                id.0,
                i,
                Tree {
                    id: id.0,
                    item: inner_after.state.laid_out(size).placed_at(Point::spec_origin()),
                    children: inner_after.children,
                },
            );
            assert(ctx@.children =~= before.with_child(
                id,
                StateScope {
                    state: inner_after.state.laid_out(size).placed_at(Point::spec_origin()),
                    children: inner_after.children,
                },
            ).children);
        }
        size
    }

    /// Has the child paint into `scene`, and paints nothing itself.
    fn paint(&mut self, ctx: &mut PaintCtx<'_>, scene: &mut Scene)
        ensures
            old(self).pod.paint_spec(old(ctx)@, *old(scene), final(ctx)@, *final(scene)),
            final(self).pod.id == old(self).pod.id,
            tree::child_index(final(ctx)@.children, old(self).pod.id.0) == tree::child_index(
                old(ctx)@.children,
                old(self).pod.id.0,
            ),
    {
        self.pod.paint(ctx, scene);
    }

    /// The root is the window, whatever its child is.
    fn accessibility_role(&self) -> (role: Role)
        ensures
            role == Role::Window,
    {
        Role::Window
    }

    /// Has the child describe itself to the accessibility tree, and adds
    /// nothing itself.
    fn accessibility(&mut self, ctx: &mut AccessCtx<'_>)
        ensures
            old(self).pod.accessibility_spec(old(ctx)@, final(ctx)@),
            final(self).pod.id == old(self).pod.id,
            tree::child_index(final(ctx)@.children, old(self).pod.id.0) == tree::child_index(
                old(ctx)@.children,
                old(self).pod.id.0,
            ),
    {
        self.pod.accessibility(ctx);
    }

    /// The one child, and nothing else.
    fn children_ids(&self) -> (ids: ChildIds)
        ensures
            child_ids::listed(ids) == seq![self.pod.id],
    {
        ChildIds::single(self.pod.id())
    }

    /// The root is named `RootWidget` in diagnostics.
    fn make_trace_span(&self) -> (label: &'static str)
        ensures
            label@ == "RootWidget"@,
    {
        "RootWidget"
    }
}

} // verus!
