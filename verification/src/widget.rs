//! The protocol between the passes and the widgets.

use crate::child_ids::ChildIds;
use crate::contexts::{
    AccessCtx, EventCtx, LayoutCtx, LifeCycleCtx, MutateCtx, PaintCtx, StateScope,
};
use crate::event::{AccessEvent, LifeCycle, PointerEvent, StatusChange, TextEvent};
use crate::geometry::{BoxConstraints, Size};
use crate::tree::Tree;
use crate::widget_state::WidgetState;
use accesskit::Role;
use vello::Scene;
use vstd::prelude::*;

verus! {

/// `accesskit::Role`, the kinds of node that an accessibility tree knows.
#[verifier::external_type_specification]
pub struct ExRole(accesskit::Role);

/// `vello::Scene`, the drawing commands that painting adds to. Nothing in
/// this library looks inside one.
#[verifier::external_type_specification]
#[verifier::external_body]
pub struct ExScene(vello::Scene);

/// What every node of the widget tree can do.
///
/// A widget never holds another widget's record: it reaches the records of
/// its children through the context that a pass hands it. Each method that
/// takes a context therefore asks that those records are in place
/// (`attached`) and leaves them in place. It also hands the context back as
/// it was lent: over the same two borrows and with the same owner's key,
/// which is what the last three clauses of each method say, so that what the
/// method wrote is what the lender of the records finds.
pub trait Widget {
    /// Whether `children`, the records below this widget's own, hold a
    /// record for every child that the widget reaches through a context, and
    /// below each what that child needs in turn. A widget that says nothing
    /// else asks for nothing.
    open spec fn attached(&self, children: Seq<Tree<WidgetState>>) -> bool {
        true
    }

    /// Whether `lifecycle`, started on `before` with `event`, may leave
    /// `after`. A widget that says nothing else promises nothing.
    open spec fn lifecycle_spec(
        &self,
        before: StateScope,
        event: LifeCycle,
        after: StateScope,
    ) -> bool {
        true
    }

    /// Whether `layout`, started on `before` under `bc`, may leave `after`
    /// and report `size`. A widget that says nothing else promises nothing.
    open spec fn layout_spec(
        &self,
        before: StateScope,
        bc: BoxConstraints,
        after: StateScope,
        size: Size,
    ) -> bool {
        true
    }

    /// Whether `paint`, started on `before` and `scene`, may leave `after`
    /// and `painted`. A widget that says nothing else promises nothing.
    open spec fn paint_spec(
        &self,
        before: StateScope,
        scene: Scene,
        after: StateScope,
        painted: Scene,
    ) -> bool {
        true
    }

    /// Whether `accessibility`, started on `before`, may leave `after`. A
    /// widget that says nothing else promises nothing.
    open spec fn accessibility_spec(&self, before: StateScope, after: StateScope) -> bool {
        true
    }

    /// A pointing device did something that concerns this widget.
    fn on_pointer_event(&mut self, ctx: &mut EventCtx<'_>, event: &PointerEvent)
        requires
            old(self).attached(old(ctx)@.children),
        ensures
            final(self).attached(final(ctx)@.children),
            final(ctx).widget_state_children.id == old(ctx).widget_state_children.id,
            *final(final(ctx).widget_state) == *final(old(ctx).widget_state),
            *final(final(ctx).widget_state_children.children)
                == *final(old(ctx).widget_state_children.children),
    ;

    /// Text or a key arrived while this widget had the focus.
    fn on_text_event(&mut self, ctx: &mut EventCtx<'_>, event: &TextEvent)
        requires
            old(self).attached(old(ctx)@.children),
        ensures
            final(self).attached(final(ctx)@.children),
            final(ctx).widget_state_children.id == old(ctx).widget_state_children.id,
            *final(final(ctx).widget_state) == *final(old(ctx).widget_state),
            *final(final(ctx).widget_state_children.children)
                == *final(old(ctx).widget_state_children.children),
    ;

    /// The accessibility platform asks this widget to act.
    fn on_access_event(&mut self, ctx: &mut EventCtx<'_>, event: &AccessEvent)
        requires
            old(self).attached(old(ctx)@.children),
        ensures
            final(self).attached(final(ctx)@.children),
            final(ctx).widget_state_children.id == old(ctx).widget_state_children.id,
            *final(final(ctx).widget_state) == *final(old(ctx).widget_state),
            *final(final(ctx).widget_state_children.children)
                == *final(old(ctx).widget_state_children.children),
    ;

    /// The widget's own status changed.
    fn on_status_change(&mut self, ctx: &mut LifeCycleCtx<'_>, event: &StatusChange)
        requires
            old(self).attached(old(ctx)@.children),
        ensures
            final(self).attached(final(ctx)@.children),
            final(ctx).widget_state_children.id == old(ctx).widget_state_children.id,
            *final(final(ctx).widget_state) == *final(old(ctx).widget_state),
            *final(final(ctx).widget_state_children.children)
                == *final(old(ctx).widget_state_children.children),
    ;

    /// A notice that is not tied to input arrived.
    fn lifecycle(&mut self, ctx: &mut LifeCycleCtx<'_>, event: &LifeCycle)
        requires
            old(self).attached(old(ctx)@.children),
        ensures
            old(self).lifecycle_spec(old(ctx)@, *event, final(ctx)@),
            final(self).attached(final(ctx)@.children),
            final(ctx).widget_state_children.id == old(ctx).widget_state_children.id,
            *final(final(ctx).widget_state) == *final(old(ctx).widget_state),
            *final(final(ctx).widget_state_children.children)
                == *final(old(ctx).widget_state_children.children),
    ;

    /// Lays the widget out under `bc` and answers with the size that it
    /// takes.
    fn layout(&mut self, ctx: &mut LayoutCtx<'_>, bc: &BoxConstraints) -> (size: Size)
        requires
            old(self).attached(old(ctx)@.children),
        ensures
            old(self).layout_spec(old(ctx)@, *bc, final(ctx)@, size),
            final(self).attached(final(ctx)@.children),
            final(ctx).widget_state_children.id == old(ctx).widget_state_children.id,
            *final(final(ctx).widget_state) == *final(old(ctx).widget_state),
            *final(final(ctx).widget_state_children.children)
                == *final(old(ctx).widget_state_children.children),
    ;

    /// Draws the widget into `scene`.
    fn paint(&mut self, ctx: &mut PaintCtx<'_>, scene: &mut Scene)
        requires
            old(self).attached(old(ctx)@.children),
        ensures
            old(self).paint_spec(old(ctx)@, *old(scene), final(ctx)@, *final(scene)),
            final(self).attached(final(ctx)@.children),
            final(ctx).widget_state_children.id == old(ctx).widget_state_children.id,
            *final(final(ctx).widget_state) == *final(old(ctx).widget_state),
            *final(final(ctx).widget_state_children.children)
                == *final(old(ctx).widget_state_children.children),
    ;

    /// What the widget is to the accessibility tree.
    fn accessibility_role(&self) -> Role;

    /// Describes the widget to the accessibility tree.
    fn accessibility(&mut self, ctx: &mut AccessCtx<'_>)
        requires
            old(self).attached(old(ctx)@.children),
        ensures
            old(self).accessibility_spec(old(ctx)@, final(ctx)@),
            final(self).attached(final(ctx)@.children),
            final(ctx).widget_state_children.id == old(ctx).widget_state_children.id,
            *final(final(ctx).widget_state) == *final(old(ctx).widget_state),
            *final(final(ctx).widget_state_children.children)
                == *final(old(ctx).widget_state_children.children),
    ;

    /// The identifiers of the widget's children, in order.
    fn children_ids(&self) -> ChildIds;

    /// The label under which diagnostics name this widget.
    fn make_trace_span(&self) -> &'static str;
}

/// A widget for changing from outside a pass, with the context over its
/// record.
pub struct WidgetMut<'a, W: Widget> {
    pub ctx: MutateCtx<'a>,
    pub widget: &'a mut W,
}

/// A widget of any kind, as the tree of widgets holds it.
pub struct WidgetBox {
    pub inner: Box<dyn Widget>,
}

} // verus!
