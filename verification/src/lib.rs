//! The storage of a retained widget tree, and the widget at its root.
//!
//! Widgets and the records that the passes keep about them live in two
//! trees of one shape, keyed by the same identifiers ([`widget_arena`]). Each
//! tree is a [`tree_arena::TreeArena`], which hands out a node's payload and
//! its children as separate borrows, so that a pass can hold a widget, its
//! record and the records below it all at once. What the trees are as
//! mathematical values is said in [`tree`], and what holds of them in
//! [`tree_laws`].
//!
//! A widget is anything that implements [`widget::Widget`]. It reaches the
//! records of its children through the context of the pass ([`contexts`]),
//! and holds each child in a [`widget_pod::WidgetPod`]. The
//! [`root_widget::RootWidget`] is the one widget that every tree starts with.

pub mod child_ids;
pub mod contexts;
pub mod event;
pub mod geometry;
pub mod root_widget;
pub mod tree;
pub mod tree_arena;
pub mod tree_laws;
pub mod widget;
pub mod widget_arena;
pub mod widget_id;
pub mod widget_pod;
pub mod widget_ref;
pub mod widget_state;
