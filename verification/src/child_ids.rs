//! The short list in which a widget names its children.

use crate::widget_id::WidgetId;
use smallvec::SmallVec;
use vstd::prelude::*;

verus! {

/// A short list of identifiers, kept in a `smallvec::SmallVec` that holds up
/// to sixteen of them without allocating.
#[verifier::external_body]
pub struct ChildIds {
    inner: SmallVec<[WidgetId; 16]>,
}

/// The identifiers that a list holds, in order.
pub uninterp spec fn listed(ids: ChildIds) -> Seq<WidgetId>;

/// How many identifiers a list may hold before `push` is refused. The room
/// that `SmallVec` asks for at that length is still far below what one
/// allocation can be.
pub const LIST_LIMIT: usize = 0x0400_0000;

/// `SmallVec::new`: a list that holds nothing.
#[verifier::external_body]
fn empty_list() -> (ids: ChildIds)
    ensures
        listed(ids) == Seq::<WidgetId>::empty(),
{
    ChildIds { inner: SmallVec::new() }
}

/// `SmallVec::push`: the list with `id` added behind its last item. It
/// panics where the capacity that it grows to cannot be had, which the limit
/// on the length keeps away from.
#[verifier::external_body]
fn push_to_list(ids: &mut ChildIds, id: WidgetId)
    requires
        listed(*old(ids)).len() < LIST_LIMIT,
    ensures
        listed(*final(ids)) == listed(*old(ids)).push(id),
{
    ids.inner.push(id)
}

/// `SmallVec::len`: how many identifiers the list holds.
#[verifier::external_body]
fn list_len(ids: &ChildIds) -> (n: usize)
    ensures
        n == listed(*ids).len(),
{
    ids.inner.len()
}

/// Indexing a `SmallVec`, which indexes the slice of its items: the
/// identifier at position `i`. It panics past the end.
#[verifier::external_body]
fn list_item(ids: &ChildIds, i: usize) -> (id: WidgetId)
    requires
        i < listed(*ids).len(),
    ensures
        id == listed(*ids)[i as int],
{
    ids.inner[i]
}

impl ChildIds {
    /// A list that holds nothing.
    pub fn new() -> (ids: ChildIds)
        ensures
            listed(ids) == Seq::<WidgetId>::empty(),
    {
        empty_list()
    }

    /// Adds `id` behind the last identifier.
    pub fn push(&mut self, id: WidgetId)
        requires
            listed(*old(self)).len() < LIST_LIMIT,
        ensures
            listed(*final(self)) == listed(*old(self)).push(id),
    {
        push_to_list(self, id)
    }

    /// Adds `id` behind the last identifier where the list has room for it,
    /// and says whether it did.
    pub fn try_push(&mut self, id: WidgetId) -> (done: bool)
        ensures
            done == (listed(*old(self)).len() < LIST_LIMIT),
            done ==> listed(*final(self)) == listed(*old(self)).push(id),
            !done ==> listed(*final(self)) == listed(*old(self)),
    {
        if list_len(self) < LIST_LIMIT {
            push_to_list(self, id);
            true
        } else {
            false
        }
    }

    /// The list that holds `id` and nothing else.
    pub fn single(id: WidgetId) -> (ids: ChildIds)
        ensures
            listed(ids) == seq![id],
    {
        let mut ids = empty_list();
        push_to_list(&mut ids, id);
        assert(listed(ids) =~= seq![id]);
        ids
    }

    /// How many identifiers the list holds.
    pub fn len(&self) -> (n: usize)
        ensures
            n == listed(*self).len(),
    {
        list_len(self)
    }

    /// The identifiers of the list, in order.
    pub fn to_vec(&self) -> (items: Vec<WidgetId>)
        ensures
            items@ == listed(*self),
    {
        let n = list_len(self);
        let mut items: Vec<WidgetId> = Vec::new();
        let mut i: usize = 0;
        while i < n
            invariant
                0 <= i <= n,
                n == listed(*self).len(),
                items@ == listed(*self).subrange(0, i as int),
            decreases n - i,
        {
            items.push(list_item(self, i));
            assert(listed(*self).subrange(0, i as int).push(listed(*self)[i as int]) =~= listed(
                *self,
            ).subrange(0, i + 1));
            i = i + 1;
        }
        assert(listed(*self).subrange(0, n as int) =~= listed(*self));
        items
    }
}

} // verus!
