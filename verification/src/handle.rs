//! The foreign side of the boundary, as far as the native side reads it.

use vstd::prelude::*;

verus! {

/// What reflection finds under the reserved reporter name of an object.
#[derive(Debug, PartialEq, Eq)]
pub enum Reporter {
    /// Reading the name failed.
    Unreadable,
    /// Nothing is registered under the name.
    Missing,
    /// The name holds something that cannot be invoked.
    NotCallable,
    /// The invocation failed, or what it returned is not a string.
    Failed,
    /// The invocation returned this identity tag.
    Reports(String),
}

/// Mathematical value of a [`Reporter`].
pub enum ReporterView {
    Unreadable,
    Missing,
    NotCallable,
    Failed,
    Reports(Seq<char>),
}

impl View for Reporter {
    type V = ReporterView;

    open spec fn view(&self) -> ReporterView {
        match self {
            Reporter::Unreadable => ReporterView::Unreadable,
            Reporter::Missing => ReporterView::Missing,
            Reporter::NotCallable => ReporterView::NotCallable,
            Reporter::Failed => ReporterView::Failed,
            Reporter::Reports(tag) => ReporterView::Reports(tag@),
        }
    }
}

/// An object-shaped host value: its identity reporter and what stands for
/// the native value behind it.
#[derive(Debug, PartialEq, Eq)]
pub struct ObjectHandle<T> {
    pub reporter: Reporter,
    /// `None` where the pointer field is known to be unreadable or to hold no
    /// number.
    pub native: Option<T>,
}

/// A host-owned, dynamically typed value.
///
/// `T` is what stands for the native value behind an object: the value
/// itself, or whatever leads to it where neither the pointer field nor the
/// value may be touched before the identity is verified.
#[derive(Debug, PartialEq, Eq)]
pub enum ForeignHandle<T> {
    /// The absence marker: the host's `undefined`.
    Undefined,
    /// The host's `null`, which is not the absence marker.
    Null,
    /// Any other value that is not object-shaped.
    Primitive,
    /// An object-shaped value, seen through its reporter and pointer field.
    Object(ObjectHandle<T>),
    /// A dynamic array, seen through its elements. It is object-shaped, and
    /// shows no reporter.
    Array(Vec<ForeignHandle<T>>),
}

/// Mathematical value of a [`ForeignHandle`].
pub enum HandleView<T> {
    Undefined,
    Null,
    Primitive,
    Object { reporter: ReporterView, native: Option<T> },
    Array(Seq<HandleView<T>>),
}

impl<T> View for ForeignHandle<T> {
    type V = HandleView<T>;

    open spec fn view(&self) -> HandleView<T> {
        handle_view(*self)
    }
}

/// The value of a handle: for an array, the values of its elements in order.
pub open spec fn handle_view<T>(handle: ForeignHandle<T>) -> HandleView<T>
    decreases handle,
{
    match handle {
        ForeignHandle::Undefined => HandleView::Undefined,
        ForeignHandle::Null => HandleView::Null,
        ForeignHandle::Primitive => HandleView::Primitive,
        ForeignHandle::Object(object) => HandleView::Object {
            reporter: object.reporter@,
            native: object.native,
        },
        ForeignHandle::Array(items) => HandleView::Array(handle_views(items@)),
    }
}

/// The values of a sequence of handles, in order.
pub open spec fn handle_views<T>(items: Seq<ForeignHandle<T>>) -> Seq<HandleView<T>>
    decreases items,
{
    if items.len() == 0 {
        Seq::empty()
    } else {
        handle_views(items.drop_last()).push(handle_view(items.last()))
    }
}

/// The values of a sequence of handles are as many as the handles, and each
/// is the value of the handle at its place.
pub proof fn lemma_handle_views<T>(items: Seq<ForeignHandle<T>>)
    ensures
        handle_views(items).len() == items.len(),
        forall|i: int| 0 <= i < items.len() ==> handle_views(items)[i] == (#[trigger] items[i])@,
    decreases items.len(),
{
    if items.len() > 0 {
        let front = items.drop_last();
        lemma_handle_views(front);
        assert forall|i: int| 0 <= i < items.len() implies handle_views(items)[i] == (
        #[trigger] items[i])@ by {
            if i < front.len() {
                assert(front[i] == items[i]);
            }
        }
    }
}

} // verus!
