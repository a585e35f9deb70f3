use accesskit::Role;
use masonry::contexts::{AccessCtx, EventCtx, LayoutCtx, LifeCycleCtx, PaintCtx};
use masonry::event::{AccessEvent, LifeCycle, PointerEvent, StatusChange, TextEvent};
use masonry::geometry::{BoxConstraints, Point, Size};
use masonry::child_ids::ChildIds;
use masonry::widget::{Widget, WidgetBox};
use masonry::widget_arena::WidgetArena;
use masonry::widget_id::WidgetId;
use masonry::widget_state::WidgetState;
use vello::Scene;

/// A widget that is known by its label and counts its layouts in its role:
/// a button before the first layout, a label after it.
struct Named {
    label: &'static str,
    layouts: u32,
}

impl Widget for Named {
    fn on_pointer_event(&mut self, _ctx: &mut EventCtx<'_>, _event: &PointerEvent) {}

    fn on_text_event(&mut self, _ctx: &mut EventCtx<'_>, _event: &TextEvent) {}

    fn on_access_event(&mut self, _ctx: &mut EventCtx<'_>, _event: &AccessEvent) {}

    fn on_status_change(&mut self, _ctx: &mut LifeCycleCtx<'_>, _event: &StatusChange) {}

    fn lifecycle(&mut self, _ctx: &mut LifeCycleCtx<'_>, _event: &LifeCycle) {}

    fn layout(&mut self, _ctx: &mut LayoutCtx<'_>, bc: &BoxConstraints) -> Size {
        self.layouts += 1;
        bc.min
    }

    fn paint(&mut self, _ctx: &mut PaintCtx<'_>, _scene: &mut Scene) {}

    fn accessibility_role(&self) -> Role {
        if self.layouts == 0 {
            Role::Button
        } else {
            Role::Label
        }
    }

    fn accessibility(&mut self, _ctx: &mut AccessCtx<'_>) {}

    fn children_ids(&self) -> ChildIds {
        ChildIds::new()
    }

    fn make_trace_span(&self) -> &'static str {
        self.label
    }
}

fn id(raw: u64) -> WidgetId {
    WidgetId::from_raw(raw)
}

fn named(label: &'static str) -> WidgetBox {
    WidgetBox { inner: Box::new(Named { label, layouts: 0 }) }
}

/// The tree `1 ── 2 ── 4`, `1 ── 3`, in both trees alike.
fn sample() -> WidgetArena {
    let mut arena = WidgetArena::new();
    assert!(arena.insert_child(None, id(1), named("one"), WidgetState::new(id(1))));
    assert!(arena.insert_child(Some(id(1)), id(2), named("two"), WidgetState::new(id(2))));
    assert!(arena.insert_child(Some(id(1)), id(3), named("three"), WidgetState::new(id(3))));
    assert!(arena.insert_child(Some(id(2)), id(4), named("four"), WidgetState::new(id(4))));
    arena
}

fn size(width: f64, height: f64) -> Size {
    Size { width: width.to_bits(), height: height.to_bits() }
}

#[test]
fn new_arena_has_no_widget() {
    let arena = WidgetArena::new();
    assert!(!arena.has(id(1)));
    assert!(arena.try_get_widget_ref(id(1)).is_none());
}

#[test]
fn inserted_widgets_have_their_pair() {
    let arena = sample();
    let labels = ["one", "two", "three", "four"];
    for raw in 1..=4u64 {
        assert!(arena.has(id(raw)));
        let (widget, state) = arena.get_pair(id(raw));
        assert_eq!(widget.children.id, Some(raw));
        assert_eq!(state.children.id, Some(raw));
        assert_eq!(state.item.id, id(raw));
        assert_eq!(widget.item.inner.make_trace_span(), labels[(raw - 1) as usize]);
        assert_eq!(widget.parent_id, state.parent_id);
    }
}

#[test]
fn absent_widgets_are_reported_absent() {
    let arena = sample();
    for raw in [0u64, 5, 17, u64::MAX] {
        assert!(!arena.has(id(raw)));
        assert!(arena.try_get_widget_ref(id(raw)).is_none());
    }
}

#[test]
fn parent_of_follows_the_tree() {
    let arena = sample();
    assert_eq!(arena.parent_of(id(1)), None);
    assert_eq!(arena.parent_of(id(2)), Some(id(1)));
    assert_eq!(arena.parent_of(id(3)), Some(id(1)));
    assert_eq!(arena.parent_of(id(4)), Some(id(2)));
}

#[test]
fn insert_under_an_absent_parent_adds_nothing() {
    let mut arena = sample();
    assert!(!arena.insert_child(Some(id(9)), id(5), named("five"), WidgetState::new(id(5))));
    assert!(!arena.has(id(5)));
    assert!(arena.widget_states.find(5).is_none());
    assert_eq!(arena.widgets.roots.len(), 1);
    assert_eq!(arena.widget_states.roots.len(), 1);
}

#[test]
fn insert_puts_the_child_last_in_both_trees() {
    let mut arena = sample();
    assert!(arena.insert_child(Some(id(1)), id(5), named("five"), WidgetState::new(id(5))));
    let (widget, state) = arena.get_pair(id(1));
    let widget_keys: Vec<u64> = widget.children.children.iter().map(|n| n.id).collect();
    let state_keys: Vec<u64> = state.children.children.iter().map(|n| n.id).collect();
    assert_eq!(widget_keys, vec![2, 3, 5]);
    assert_eq!(state_keys, vec![2, 3, 5]);
    assert_eq!(arena.parent_of(id(5)), Some(id(1)));
}

#[test]
fn pair_mut_reaches_widget_and_record_at_once() {
    let mut arena = sample();
    let bc = BoxConstraints { min: size(3.0, 4.0), max: size(30.0, 40.0) };
    {
        let (widget, state) = arena.get_pair_mut(id(2));
        assert_eq!(widget.parent_id, Some(1));
        assert_eq!(state.parent_id, Some(1));
        let mut ctx =
            LayoutCtx { widget_state: state.item, widget_state_children: state.children };
        let reported = widget.item.inner.layout(&mut ctx, &bc);
        ctx.widget_state.size = reported;
        ctx.widget_state.needs_layout = false;
    }
    let (widget, state) = arena.get_pair(id(2));
    assert_eq!(widget.item.inner.accessibility_role(), Role::Label);
    assert_eq!(state.item.size, size(3.0, 4.0));
    assert!(!state.item.needs_layout);
    for raw in [1u64, 3, 4] {
        let (widget, state) = arena.get_pair(id(raw));
        assert_eq!(widget.item.inner.accessibility_role(), Role::Button);
        assert_eq!(*state.item, WidgetState::new(id(raw)));
    }
}

#[test]
fn writing_the_record_leaves_the_widget_alone() {
    let mut arena = sample();
    {
        let (_widget, state) = arena.get_pair_mut(id(3));
        state.item.origin = Point { x: 7.5f64.to_bits(), y: 1.25f64.to_bits() };
        state.item.needs_paint = false;
    }
    let (widget, state) = arena.get_pair(id(3));
    assert_eq!(widget.item.inner.make_trace_span(), "three");
    assert_eq!(widget.item.inner.accessibility_role(), Role::Button);
    assert_eq!(f64::from_bits(state.item.origin.x), 7.5);
    assert_eq!(f64::from_bits(state.item.origin.y), 1.25);
    assert!(!state.item.needs_paint);
}

#[test]
fn writing_the_widget_leaves_the_record_alone() {
    let mut arena = sample();
    {
        let (widget, _state) = arena.get_pair_mut(id(3));
        *widget.item = named("other");
    }
    let (widget, state) = arena.get_pair(id(3));
    assert_eq!(widget.item.inner.make_trace_span(), "other");
    assert_eq!(*state.item, WidgetState::new(id(3)));
    assert_eq!(arena.parent_of(id(3)), Some(id(1)));
}

#[test]
fn get_widget_and_get_state_read_one_tree_each() {
    let mut arena = sample();
    let widget = arena.get_widget(id(4));
    assert_eq!(widget.item.inner.make_trace_span(), "four");
    assert_eq!(widget.parent_id, Some(2));
    assert_eq!(widget.children.children.len(), 0);
    let state = arena.get_state(id(2));
    assert_eq!(state.item.id, id(2));
    assert_eq!(state.parent_id, Some(1));
    assert!(state.children.has_child(4));
}

#[test]
fn get_widget_mut_and_get_state_mut_write_one_tree_each() {
    let mut arena = sample();
    *arena.get_widget_mut(id(4)).item = named("fourth");
    arena.get_state_mut(id(4)).item.size = size(1.0, 2.0);
    assert_eq!(arena.get_widget(id(4)).item.inner.make_trace_span(), "fourth");
    assert_eq!(arena.get_state(id(4)).item.size, size(1.0, 2.0));
    assert_eq!(arena.get_widget(id(2)).item.inner.make_trace_span(), "two");
    assert_eq!(*arena.get_state(id(2)).item, WidgetState::new(id(2)));
}

#[test]
fn widget_ref_joins_both_trees() {
    let arena = sample();
    let node = arena.try_get_widget_ref(id(2)).unwrap();
    assert_eq!(node.widget.make_trace_span(), "two");
    assert_eq!(node.widget_state.id, id(2));
    assert_eq!(node.widget_children.id, Some(2));
    assert_eq!(node.widget_state_children.id, Some(2));
    assert!(node.widget_children.has_child(4));
    assert!(node.widget_state_children.has_child(4));
    assert!(!node.widget_children.has_child(3));
    let below = node.widget_children.get_child(4).unwrap();
    assert_eq!(below.item.inner.make_trace_span(), "four");
}

#[test]
fn remove_child_takes_the_subtree_out_of_both_trees() {
    let mut arena = sample();
    assert!(arena.remove_child(Some(id(1)), id(2)));
    for raw in [2u64, 4] {
        assert!(!arena.has(id(raw)));
        assert!(arena.widget_states.find(raw).is_none());
        assert!(arena.try_get_widget_ref(id(raw)).is_none());
    }
    for raw in [1u64, 3] {
        assert!(arena.has(id(raw)));
        assert!(arena.try_get_widget_ref(id(raw)).is_some());
    }
}

#[test]
fn remove_child_needs_the_right_parent() {
    let mut arena = sample();
    assert!(!arena.remove_child(Some(id(1)), id(4)));
    assert!(!arena.remove_child(None, id(2)));
    assert!(!arena.remove_child(Some(id(9)), id(2)));
    assert!(arena.has(id(4)));
    assert!(arena.has(id(2)));
    assert!(arena.remove_child(None, id(1)));
    assert!(!arena.has(id(1)));
    assert!(!arena.has(id(3)));
    assert_eq!(arena.widgets.roots.len(), 0);
    assert_eq!(arena.widget_states.roots.len(), 0);
}

#[test]
fn record_removed_alone_breaks_the_pair() {
    let mut arena = sample();
    {
        let mut above = arena.widget_states.find_mut(1).unwrap();
        assert!(above.children.remove_child(3).is_some());
    }
    assert!(arena.has(id(3)));
    assert!(arena.widget_states.find(3).is_none());
    assert!(arena.try_get_widget_ref(id(3)).is_none());
    assert!(arena.try_get_widget_ref(id(2)).is_some());
}

#[test]
fn widget_removed_alone_breaks_the_pair() {
    let mut arena = sample();
    {
        let mut above = arena.widgets.find_mut(1).unwrap();
        assert!(above.children.remove_child(3).is_some());
    }
    assert!(!arena.has(id(3)));
    assert!(arena.widget_states.find(3).is_some());
    assert!(!arena.remove_child(Some(id(1)), id(3)));
    assert!(arena.try_get_widget_ref(id(2)).is_some());
}
