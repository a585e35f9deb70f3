//! What the passes deliver to widgets.

use crate::widget_id::WidgetId;
use vstd::prelude::*;

verus! {

/// What a pointing device did, with its position in the window as two
/// binary64 bit patterns.
#[derive(Clone, Copy, Debug, PartialEq, Eq, Structural)]
pub enum PointerEvent {
    PointerDown { x: u64, y: u64 },
    PointerUp { x: u64, y: u64 },
    PointerMove { x: u64, y: u64 },
    PointerLeave,
}

/// Keyboard input and changes of the window's focus.
#[derive(Clone, Copy, Debug, PartialEq, Eq, Structural)]
pub enum TextEvent {
    KeyDown { code: u32 },
    KeyUp { code: u32 },
    FocusChange { focused: bool },
}

/// A request of the accessibility platform, addressed to one widget.
#[derive(Clone, Copy, Debug, PartialEq, Eq, Structural)]
pub struct AccessEvent {
    pub target: WidgetId,
    pub action: u32,
}

/// A notice that is not tied to input.
#[derive(Clone, Copy, Debug, PartialEq, Eq, Structural)]
pub enum LifeCycle {
    WidgetAdded,
    AnimFrame { interval: u64 },
    DisabledChanged { disabled: bool },
    BuildFocusChain,
}

/// A change of a widget's own status.
#[derive(Clone, Copy, Debug, PartialEq, Eq, Structural)]
pub enum StatusChange {
    HotChanged { hot: bool },
    FocusChanged { focused: bool },
}

} // verus!
