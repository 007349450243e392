//! What holds between encoding and decoding, whatever the values.

use vstd::prelude::*;
use crate::error::{ArrayError, ArrayErrorView, CastError, CastErrorView};
use crate::exported::{downcast, exported, recovers};
use crate::handle::{HandleView, ReporterView};
use crate::helpers::{
    array_handle,
    array_values,
    items_values,
    option_handle,
    option_value,
    recovers_each,
    recovers_option,
};

verus! {

/// Every clone of a `T` equals the value it was made from.
pub open spec fn clone_is_exact<T: Clone>() -> bool {
    forall|value: T, copy: T| #[trigger] cloned(value, copy) ==> value == copy
}

/// Decoding the handle of an optional value finds that value again: nothing
/// for the absence marker, the encoded value for a present one. What the
/// decoder hands out is a clone of it, and equal to it where clones are exact.
pub proof fn lemma_option_round_trip<T: Clone>(
    tag: Seq<char>,
    value: Option<T>,
    decoded: Result<Option<T>, CastError>,
)
    requires
        recovers_option(decoded, option_value(option_handle(tag, value), tag)),
    ensures
        option_value(option_handle(tag, value), tag) == Ok::<Option<T>, CastErrorView>(value),
        value is None ==> decoded == Ok::<Option<T>, CastError>(None),
        value matches Some(given) ==> decoded matches Ok(Some(copy)) && cloned(given, copy),
        clone_is_exact::<T>() ==> decoded == Ok::<Option<T>, CastError>(value),
{
}

/// A downcast does not use the handle up: where one downcast of a handle
/// succeeds, every other downcast of it against the same identity succeeds
/// too, and both hand out clones of the one value behind the handle, which
/// are equal where clones are exact.
pub proof fn lemma_downcast_repeats<T: Clone>(
    handle: HandleView<T>,
    want: Seq<char>,
    first: Result<T, CastError>,
    second: Result<T, CastError>,
)
    requires
        recovers(first, downcast(handle, want)),
        recovers(second, downcast(handle, want)),
        first is Ok,
    ensures
        second is Ok,
        downcast(handle, want) matches Ok(value) && cloned(value, first->Ok_0) && cloned(
            value,
            second->Ok_0,
        ),
        clone_is_exact::<T>() ==> first == second,
{
}

/// The downcast of each handle of an encoded sequence finds the value at its
/// place.
proof fn lemma_encoded_items<T>(tag: Seq<char>, values: Seq<T>)
    ensures
        items_values(array_handle(tag, values)->Array_0, tag) == Ok::<Seq<T>, ArrayErrorView>(
            values,
        ),
    decreases values.len(),
{
    let items = array_handle(tag, values)->Array_0;
    if values.len() == 0 {
        assert(values =~= Seq::empty());
    } else {
        let front = values.drop_last();
        lemma_encoded_items(tag, front);
        assert(items.drop_last() =~= array_handle(tag, front)->Array_0);
        assert(front.push(values.last()) =~= values);
    }
}

/// Decoding the array handle of a sequence finds the same values in the same
/// order. What the decoder hands out has the same length and holds a clone of
/// each value at its place, and equals the sequence where clones are exact.
pub proof fn lemma_array_round_trip<T: Clone>(
    tag: Seq<char>,
    values: Seq<T>,
    decoded: Result<Vec<T>, ArrayError>,
)
    requires
        recovers_each(decoded, array_values(array_handle(tag, values), tag)),
    ensures
        array_values(array_handle(tag, values), tag) == Ok::<Seq<T>, ArrayErrorView>(values),
        decoded matches Ok(copies) && copies@.len() == values.len() && forall|i: int|
            0 <= i < values.len() ==> cloned(values[i], #[trigger] copies@[i]),
        clone_is_exact::<T>() ==> decoded->Ok_0@ == values,
{
    lemma_encoded_items(tag, values);
}

/// Decoding item by item neither skips nor truncates: it finds a value for
/// every item where every item can be downcast, and otherwise fails at the
/// earliest item that cannot, with the reason why that one cannot.
pub proof fn lemma_earliest_failure_decides<T>(items: Seq<HandleView<T>>, want: Seq<char>)
    ensures
        match items_values(items, want) {
            Ok(values) => {
                &&& values.len() == items.len()
                &&& forall|i: int|
                    0 <= i < items.len() ==> downcast(#[trigger] items[i], want) == Ok::<
                        T,
                        CastErrorView,
                    >(values[i])
            },
            Err(ArrayErrorView::Element { index, cause }) => {
                &&& index < items.len()
                &&& downcast(items[index as int], want) == Err::<T, CastErrorView>(cause)
                &&& forall|i: int| 0 <= i < index ==> downcast(#[trigger] items[i], want) is Ok
            },
            Err(ArrayErrorView::NotArray) => false,
        },
    decreases items.len(),
{
    if items.len() > 0 {
        let front = items.drop_last();
        lemma_earliest_failure_decides(front, want);
        assert forall|i: int| 0 <= i < front.len() implies downcast(
            #[trigger] items[i],
            want,
        ) == downcast(front[i], want) by {
            assert(front[i] == items[i]);
        }
    }
}

/// An empty sequence is encoded as an empty array, which is not the absence
/// marker, and is decoded as an empty sequence.
pub proof fn lemma_empty_array_round_trip<T>(tag: Seq<char>)
    ensures
        array_handle(tag, Seq::<T>::empty()) == HandleView::<T>::Array(Seq::empty()),
        array_handle(tag, Seq::<T>::empty()) != HandleView::<T>::Undefined,
        array_values(array_handle(tag, Seq::<T>::empty()), tag) == Ok::<Seq<T>, ArrayErrorView>(
            Seq::empty(),
        ),
{
    assert(array_handle(tag, Seq::<T>::empty())->Array_0 =~= Seq::empty());
}

/// An object that reports one identity never passes for another: the
/// downcast fails with the two tags, whatever stands behind the handle.
pub proof fn lemma_mismatch_rejected<T>(got: Seq<char>, want: Seq<char>, native: Option<T>)
    requires
        got != want,
    ensures
        downcast(HandleView::Object { reporter: ReporterView::Reports(got), native }, want) == Err::<
            T,
            CastErrorView,
        >(CastErrorView::Mismatch { got, want }),
        native matches Some(value) ==> downcast(exported(got, value), want) == Err::<
            T,
            CastErrorView,
        >(CastErrorView::Mismatch { got, want }),
{
}

/// A handle that is not object-shaped is never downcast, and a handle that is
/// not array-shaped is never decoded as a sequence: both fail on the shape.
pub proof fn lemma_shape_rejected<T>(handle: HandleView<T>, want: Seq<char>)
    ensures
        !(handle is Object || handle is Array) ==> downcast(handle, want) == Err::<
            T,
            CastErrorView,
        >(CastErrorView::NotObject { want }),
        !(handle is Array) ==> array_values(handle, want) == Err::<Seq<T>, ArrayErrorView>(
            ArrayErrorView::NotArray,
        ),
{
}

} // verus!
