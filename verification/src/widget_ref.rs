//! One node of the widget tree, for reading.

use crate::tree_arena::ArenaRefChildren;
use crate::widget::{Widget, WidgetBox};
use crate::widget_state::WidgetState;
use vstd::prelude::*;

verus! {

/// One node of the widget tree for reading: the widget, its record, and the
/// children of both.
pub struct WidgetRef<'w, W: Widget + ?Sized> {
    pub widget_state_children: ArenaRefChildren<'w, WidgetState>,
    pub widget_children: ArenaRefChildren<'w, WidgetBox>,
    pub widget_state: &'w WidgetState,
    pub widget: &'w W,
}

} // verus!
