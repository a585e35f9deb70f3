//! The identifiers of widgets.

use vstd::prelude::*;

verus! {

/// The name of one widget for as long as it lives. The trees key their nodes
/// by the number inside.
#[derive(Clone, Copy, Debug, PartialEq, Eq, Structural, Hash)]
pub struct WidgetId(pub u64);

impl WidgetId {
    /// The identifier that stands for the key `raw`.
    pub fn from_raw(raw: u64) -> (id: WidgetId)
        ensures
            id == WidgetId(raw),
    {
        WidgetId(raw)
    }

    /// The key under which the trees hold this widget.
    pub fn to_raw(self) -> (raw: u64)
        ensures
            raw == self.0,
    {
        self.0
    }
}

} // verus!
