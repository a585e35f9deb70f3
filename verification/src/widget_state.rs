//! The record that the passes keep about one widget.

use crate::geometry::{Point, Size};
use crate::widget_id::WidgetId;
use vstd::prelude::*;

verus! {

/// What the passes record about one widget. It lives in a tree of its own,
/// under the key of the widget that it belongs to.
#[derive(Clone, Copy, Debug, PartialEq, Eq, Structural)]
pub struct WidgetState {
    pub id: WidgetId,
    /// The size that the last layout gave the widget.
    pub size: Size,
    /// Where the widget's parent put it.
    pub origin: Point,
    pub needs_layout: bool,
    pub needs_paint: bool,
}

impl WidgetState {
    /// The record of a widget that no pass has visited yet.
    pub open spec fn spec_new(id: WidgetId) -> WidgetState {
        WidgetState {
            id,
            size: Size::spec_zero(),
            origin: Point::spec_origin(),
            needs_layout: true,
            needs_paint: true,
        }
    }

    /// This record once a layout has given the widget `size`.
    pub open spec fn laid_out(self, size: Size) -> WidgetState {
        WidgetState {
            id: self.id,
            size,
            origin: self.origin,
            needs_layout: false,
            needs_paint: self.needs_paint,
        }
    }

    /// This record once the widget's parent has put it at `origin`.
    pub open spec fn placed_at(self, origin: Point) -> WidgetState {
        WidgetState {
            id: self.id,
            size: self.size,
            origin,
            needs_layout: self.needs_layout,
            needs_paint: self.needs_paint,
        }
    }

    /// The record of a widget that no pass has visited yet.
    #[verifier::when_used_as_spec(spec_new)]
    pub fn new(id: WidgetId) -> (state: WidgetState)
        ensures
            state == WidgetState::spec_new(id),
    {
        WidgetState {
            id,
            size: Size::zero(),
            origin: Point::origin(),
            needs_layout: true,
            needs_paint: true,
        }
    }
}

} // verus!
