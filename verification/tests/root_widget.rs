use accesskit::Role;
use masonry::contexts::{AccessCtx, EventCtx, LayoutCtx, LifeCycleCtx, MutateCtx, PaintCtx};
use masonry::event::{AccessEvent, LifeCycle, PointerEvent, StatusChange, TextEvent};
use masonry::geometry::{BoxConstraints, Point, Size};
use masonry::child_ids::ChildIds;
use masonry::root_widget::RootWidget;
use masonry::tree_arena::TreeArena;
use masonry::widget::{Widget, WidgetMut};
use masonry::widget_id::WidgetId;
use masonry::widget_pod::WidgetPod;
use masonry::widget_state::WidgetState;
use vello::kurbo::{Affine, Rect};
use vello::peniko::{Color, Fill};
use vello::Scene;

/// A leaf that answers every layout with the largest size allowed and keeps
/// count of what reaches it.
struct Probe {
    inputs: u32,
    status_changes: u32,
    notices: Vec<LifeCycle>,
    layouts: Vec<BoxConstraints>,
    paints: u32,
    descriptions: u32,
}

fn probe() -> Probe {
    Probe {
        inputs: 0,
        status_changes: 0,
        notices: Vec::new(),
        layouts: Vec::new(),
        paints: 0,
        descriptions: 0,
    }
}

impl Widget for Probe {
    fn on_pointer_event(&mut self, _ctx: &mut EventCtx<'_>, _event: &PointerEvent) {
        self.inputs += 1;
    }

    fn on_text_event(&mut self, _ctx: &mut EventCtx<'_>, _event: &TextEvent) {
        self.inputs += 1;
    }

    fn on_access_event(&mut self, _ctx: &mut EventCtx<'_>, _event: &AccessEvent) {
        self.inputs += 1;
    }

    fn on_status_change(&mut self, _ctx: &mut LifeCycleCtx<'_>, _event: &StatusChange) {
        self.status_changes += 1;
    }

    fn lifecycle(&mut self, ctx: &mut LifeCycleCtx<'_>, event: &LifeCycle) {
        self.notices.push(*event);
        ctx.widget_state.needs_layout = true;
    }

    fn layout(&mut self, _ctx: &mut LayoutCtx<'_>, bc: &BoxConstraints) -> Size {
        self.layouts.push(*bc);
        bc.max
    }

    fn paint(&mut self, ctx: &mut PaintCtx<'_>, scene: &mut Scene) {
        self.paints += 1;
        ctx.widget_state.needs_paint = false;
        scene.fill(
            Fill::NonZero,
            Affine::IDENTITY,
            Color::rgb8(255, 0, 0),
            None,
            &Rect::new(0.0, 0.0, 1.0, 1.0),
        );
    }

    fn accessibility_role(&self) -> Role {
        Role::Button
    }

    fn accessibility(&mut self, ctx: &mut AccessCtx<'_>) {
        self.descriptions += 1;
        ctx.widget_state.needs_layout = false;
    }

    fn children_ids(&self) -> ChildIds {
        ChildIds::new()
    }

    fn make_trace_span(&self) -> &'static str {
        "Probe"
    }
}

const ROOT: WidgetId = WidgetId(1);
const CHILD: WidgetId = WidgetId(2);

fn size(width: f64, height: f64) -> Size {
    Size { width: width.to_bits(), height: height.to_bits() }
}

/// The records of a root and of its child, the child somewhere else than at
/// the origin.
fn records() -> TreeArena<WidgetState> {
    let mut states: TreeArena<WidgetState> = TreeArena::new();
    states.root_token_mut().insert_child(ROOT.to_raw(), WidgetState::new(ROOT));
    let mut child = WidgetState::new(CHILD);
    child.origin = Point { x: 5.0f64.to_bits(), y: 9.0f64.to_bits() };
    states.find_mut(ROOT.to_raw()).unwrap().children.insert_child(CHILD.to_raw(), child);
    states
}

#[test]
fn new_wraps_the_widget_under_the_identifier() {
    let root = RootWidget::new(probe(), CHILD);
    assert_eq!(root.pod.id(), CHILD);
    assert_eq!(root.pod.inner.make_trace_span(), "Probe");
}

#[test]
fn from_pod_keeps_the_pod() {
    let mut inner = probe();
    inner.paints = 3;
    let root = RootWidget::from_pod(WidgetPod::new(inner, WidgetId::from_raw(11)));
    assert_eq!(root.pod.id, WidgetId::from_raw(11));
    assert_eq!(root.pod.inner.paints, 3);
}

#[test]
fn root_reports_the_window_role() {
    let root = RootWidget::new(probe(), CHILD);
    assert_eq!(root.accessibility_role(), Role::Window);
    assert_eq!(root.pod.inner.accessibility_role(), Role::Button);
}

#[test]
fn root_of_a_root_is_still_the_window() {
    let inner = RootWidget::new(probe(), WidgetId::from_raw(3));
    let outer = RootWidget::new(inner, CHILD);
    assert_eq!(outer.accessibility_role(), Role::Window);
    assert_eq!(outer.children_ids().to_vec(), vec![CHILD]);
    assert_eq!(outer.pod.inner.children_ids().to_vec(), vec![WidgetId::from_raw(3)]);
}

#[test]
fn root_lists_its_one_child() {
    let root = RootWidget::new(probe(), WidgetId::from_raw(7));
    let ids = root.children_ids();
    assert_eq!(ids.len(), 1);
    assert_eq!(ids.to_vec(), vec![WidgetId::from_raw(7)]);
}

#[test]
fn root_is_named_in_diagnostics() {
    let root = RootWidget::new(probe(), CHILD);
    assert_eq!(root.make_trace_span(), "RootWidget");
}

#[test]
fn root_layout_returns_child_size_and_places_child_at_origin() {
    let mut states = records();
    let mut root = RootWidget::new(probe(), CHILD);
    let bc = BoxConstraints { min: size(0.0, 0.0), max: size(640.0, 480.0) };
    let reported = {
        let node = states.find_mut(ROOT.to_raw()).unwrap();
        let mut ctx = LayoutCtx { widget_state: node.item, widget_state_children: node.children };
        root.layout(&mut ctx, &bc)
    };
    assert_eq!(reported, size(640.0, 480.0));
    assert_eq!(root.pod.inner.layouts, vec![bc]);
    let child = states.find(CHILD.to_raw()).unwrap();
    assert_eq!(child.parent_id, Some(ROOT.to_raw()));
    assert_eq!(child.item.origin, Point::origin());
    assert_eq!(f64::from_bits(child.item.origin.x), 0.0);
    assert_eq!(f64::from_bits(child.item.origin.y), 0.0);
    assert_eq!(child.item.size, size(640.0, 480.0));
    assert!(!child.item.needs_layout);
    assert_eq!(*states.find(ROOT.to_raw()).unwrap().item, WidgetState::new(ROOT));
}

#[test]
fn root_layout_hands_on_any_size_unchanged() {
    for (width, height) in [(0.0, 0.0), (1e-300, 1e300), (f64::INFINITY, 12.5), (f64::NAN, -0.0)] {
        let mut states = records();
        let mut root = RootWidget::new(probe(), CHILD);
        let bc = BoxConstraints { min: size(0.0, 0.0), max: size(width, height) };
        let node = states.find_mut(ROOT.to_raw()).unwrap();
        let mut ctx = LayoutCtx { widget_state: node.item, widget_state_children: node.children };
        let reported = root.layout(&mut ctx, &bc);
        assert_eq!(reported.width, width.to_bits());
        assert_eq!(reported.height, height.to_bits());
        assert_eq!(ctx.widget_state_children.get_child(CHILD.to_raw()).unwrap().item.origin,
            Point { x: 0, y: 0 });
    }
}

#[test]
fn root_hands_notices_on_to_the_child() {
    let mut states = records();
    states.find_mut(CHILD.to_raw()).unwrap().item.needs_layout = false;
    let mut root = RootWidget::new(probe(), CHILD);
    {
        let node = states.find_mut(ROOT.to_raw()).unwrap();
        let mut ctx =
            LifeCycleCtx { widget_state: node.item, widget_state_children: node.children };
        root.lifecycle(&mut ctx, &LifeCycle::WidgetAdded);
        root.lifecycle(&mut ctx, &LifeCycle::AnimFrame { interval: 16 });
    }
    assert_eq!(
        root.pod.inner.notices,
        vec![LifeCycle::WidgetAdded, LifeCycle::AnimFrame { interval: 16 }]
    );
    assert!(states.find(CHILD.to_raw()).unwrap().item.needs_layout);
    assert_eq!(*states.find(ROOT.to_raw()).unwrap().item, WidgetState::new(ROOT));
}

#[test]
fn root_has_the_child_paint() {
    let mut states = records();
    let mut root = RootWidget::new(probe(), CHILD);
    let mut scene = Scene::new();
    assert!(scene.encoding().is_empty());
    {
        let node = states.find_mut(ROOT.to_raw()).unwrap();
        let mut ctx = PaintCtx { widget_state: node.item, widget_state_children: node.children };
        root.paint(&mut ctx, &mut scene);
    }
    assert_eq!(root.pod.inner.paints, 1);
    assert!(!scene.encoding().is_empty());
    assert!(!states.find(CHILD.to_raw()).unwrap().item.needs_paint);
    assert!(states.find(ROOT.to_raw()).unwrap().item.needs_paint);
}

#[test]
fn root_has_the_child_describe_itself() {
    let mut states = records();
    let mut root = RootWidget::new(probe(), CHILD);
    {
        let node = states.find_mut(ROOT.to_raw()).unwrap();
        let mut ctx = AccessCtx { widget_state: node.item, widget_state_children: node.children };
        root.accessibility(&mut ctx);
    }
    assert_eq!(root.pod.inner.descriptions, 1);
    assert!(!states.find(CHILD.to_raw()).unwrap().item.needs_layout);
    assert!(states.find(ROOT.to_raw()).unwrap().item.needs_layout);
}

#[test]
fn root_takes_no_input() {
    let mut states = records();
    let before_root = *states.find(ROOT.to_raw()).unwrap().item;
    let before_child = *states.find(CHILD.to_raw()).unwrap().item;
    let mut root = RootWidget::new(probe(), CHILD);
    {
        let node = states.find_mut(ROOT.to_raw()).unwrap();
        let mut ctx = EventCtx { widget_state: node.item, widget_state_children: node.children };
        root.on_pointer_event(&mut ctx, &PointerEvent::PointerDown { x: 0, y: 0 });
        root.on_pointer_event(&mut ctx, &PointerEvent::PointerLeave);
        root.on_text_event(&mut ctx, &TextEvent::KeyDown { code: 13 });
        root.on_access_event(&mut ctx, &AccessEvent { target: CHILD, action: 1 });
    }
    {
        let node = states.find_mut(ROOT.to_raw()).unwrap();
        let mut ctx =
            LifeCycleCtx { widget_state: node.item, widget_state_children: node.children };
        root.on_status_change(&mut ctx, &StatusChange::FocusChanged { focused: true });
    }
    assert_eq!(root.pod.inner.inputs, 0);
    assert_eq!(root.pod.inner.status_changes, 0);
    assert_eq!(*states.find(ROOT.to_raw()).unwrap().item, before_root);
    assert_eq!(*states.find(CHILD.to_raw()).unwrap().item, before_child);
}

#[test]
fn get_element_reaches_the_child_and_its_record() {
    let mut states = records();
    let mut root = RootWidget::new(probe(), CHILD);
    {
        let node = states.find_mut(ROOT.to_raw()).unwrap();
        let ctx = MutateCtx { widget_state: node.item, widget_state_children: node.children };
        let mut root_mut = WidgetMut { ctx, widget: &mut root };
        let child = root_mut.get_element();
        assert_eq!(child.ctx.widget_state.id, CHILD);
        assert_eq!(child.ctx.widget_state_children.id, Some(CHILD.to_raw()));
        child.widget.paints = 9;
        child.ctx.widget_state.size = size(2.0, 3.0);
    }
    assert_eq!(root.pod.inner.paints, 9);
    assert_eq!(states.find(CHILD.to_raw()).unwrap().item.size, size(2.0, 3.0));
    assert_eq!(*states.find(ROOT.to_raw()).unwrap().item, WidgetState::new(ROOT));
}

#[test]
fn fresh_record_waits_for_layout_and_paint() {
    let state = WidgetState::new(CHILD);
    assert_eq!(state.id, CHILD);
    assert_eq!(state.size, Size::zero());
    assert_eq!(state.origin, Point::origin());
    assert!(state.needs_layout);
    assert!(state.needs_paint);
    assert_eq!(f64::from_bits(Size::zero().width), 0.0);
    assert_eq!(f64::from_bits(Size::zero().height), 0.0);
}
