//! The two codecs built on the downcast: optional values and sequences.

use vstd::prelude::*;
use crate::error::{ArrayError, ArrayErrorView, CastError, CastErrorView};
use crate::exported::{downcast, exported, recovers, ExportedType};
use crate::handle::{handle_views, lemma_handle_views, ForeignHandle, HandleView};

verus! {

/// The handle that stands for an optional value of the type with identity
/// `tag`: the absence marker for `None`, else the value's own handle.
pub open spec fn option_handle<T>(tag: Seq<char>, value: Option<T>) -> HandleView<T> {
    match value {
        None => HandleView::Undefined,
        Some(value) => exported(tag, value),
    }
}

/// What decoding `handle` as an optional value of identity `want` finds.
pub open spec fn option_value<T>(handle: HandleView<T>, want: Seq<char>) -> Result<
    Option<T>,
    CastErrorView,
> {
    match handle {
        HandleView::Undefined => Ok(None),
        _ => match downcast(handle, want) {
            Ok(value) => Ok(Some(value)),
            Err(reason) => Err(reason),
        },
    }
}

/// The array handle that stands for `values` of the type with identity `tag`:
/// one handle for each value, in the same order.
pub open spec fn array_handle<T>(tag: Seq<char>, values: Seq<T>) -> HandleView<T> {
    HandleView::Array(Seq::new(values.len(), |i: int| exported(tag, values[i])))
}

/// What the downcast of each of `items` in turn finds: every value, or the
/// first element that fails, with its index and the reason.
pub open spec fn items_values<T>(items: Seq<HandleView<T>>, want: Seq<char>) -> Result<
    Seq<T>,
    ArrayErrorView,
>
    decreases items.len(),
{
    if items.len() == 0 {
        Ok(Seq::empty())
    } else {
        match items_values(items.drop_last(), want) {
            Err(reason) => Err(reason),
            Ok(values) => match downcast(items.last(), want) {
                Ok(value) => Ok(values.push(value)),
                Err(cause) => Err(
                    ArrayErrorView::Element { index: (items.len() - 1) as nat, cause },
                ),
            },
        }
    }
}

/// A failure among the first `count` of `items` is the failure of all of them.
proof fn lemma_first_failure_stays<T>(items: Seq<HandleView<T>>, want: Seq<char>, count: int)
    requires
        0 <= count <= items.len(),
        items_values(items.take(count), want) is Err,
    ensures
        items_values(items, want) == items_values(items.take(count), want),
    decreases items.len() - count,
{
    if count < items.len() {
        assert(items.take(count + 1).drop_last() =~= items.take(count));
        lemma_first_failure_stays(items, want, count + 1);
    } else {
        assert(items.take(count) =~= items);
    }
}

/// What decoding `handle` as a sequence of values of identity `want` finds.
pub open spec fn array_values<T>(handle: HandleView<T>, want: Seq<char>) -> Result<
    Seq<T>,
    ArrayErrorView,
> {
    match handle {
        HandleView::Array(items) => items_values(items, want),
        _ => Err(ArrayErrorView::NotArray),
    }
}

/// `got` hands out, in order, a clone of each value that `found` holds, or
/// the failure that `found` holds.
pub open spec fn recovers_each<T: Clone>(
    got: Result<Vec<T>, ArrayError>,
    found: Result<Seq<T>, ArrayErrorView>,
) -> bool {
    match found {
        Ok(values) => {
            &&& got matches Ok(copies)
            &&& copies@.len() == values.len()
            &&& forall|i: int| 0 <= i < values.len() ==> cloned(values[i], #[trigger] copies@[i])
        },
        Err(reason) => got matches Err(error) && error@ == reason,
    }
}

/// `got` hands out what `found` holds, a present value as a clone.
pub open spec fn recovers_option<T: Clone>(
    got: Result<Option<T>, CastError>,
    found: Result<Option<T>, CastErrorView>,
) -> bool {
    match found {
        Ok(None) => got == Ok::<Option<T>, CastError>(None),
        Ok(Some(value)) => got matches Ok(Some(copy)) && cloned(value, copy),
        Err(reason) => got matches Err(error) && error@ == reason,
    }
}

/// Encodes an optional value of type `ty` as a handle: the absence marker for
/// `None`, the value's freshly made handle for `Some`.
pub fn into_js_option<T>(ty: &ExportedType, val: Option<T>) -> (r: ForeignHandle<T>)
    ensures
        r@ == option_handle(ty@.tag(), val),
{
    match val {
        None => ForeignHandle::Undefined,
        Some(value) => ty.into_handle(value),
    }
}

/// Decodes a handle as an optional value of type `ty`: `None` for the absence
/// marker, else the downcast of the handle, whose failure is the failure of
/// the decoding. The handle stays valid.
pub fn try_from_js_option<T: Clone>(ty: &ExportedType, val: &ForeignHandle<T>) -> (r: Result<
    Option<T>,
    CastError,
>)
    ensures
        recovers_option(r, option_value(val@, ty@.tag())),
{
    match val {
        ForeignHandle::Undefined => Ok(None),
        _ => match ty.try_from_js_value(val) {
            Ok(value) => Ok(Some(value)),
            Err(error) => Err(error),
        },
    }
}

/// Encodes a sequence of values of type `ty` as an array handle with one
/// element for each value, in the same order; an empty sequence gives an
/// empty array, not the absence marker.
pub fn into_js_array<T>(ty: &ExportedType, value: Vec<T>) -> (r: ForeignHandle<T>)
    ensures
        r@ == array_handle(ty@.tag(), value@),
{
    let ghost values = value@;
    let mut items: Vec<ForeignHandle<T>> = Vec::with_capacity(value.len());
    for item in iter: value
        invariant
            iter.seq() == values,
            items@.len() == iter.index(),
            forall|k: int|
                0 <= k < items@.len() ==> (#[trigger] items@[k])@ == exported(
                    ty@.tag(),
                    values[k],
                ),
    {
        items.push(ty.into_handle(item));
    }
    proof {
        lemma_handle_views(items@);
        let made = ForeignHandle::Array(items)@->Array_0;
        let wanted = array_handle(ty@.tag(), values)->Array_0;
        assert forall|i: int| 0 <= i < made.len() implies made[i] == wanted[i] by {
            assert(made[i] == items@[i]@);
        }
        assert(made =~= wanted);
    }
    ForeignHandle::Array(items)
}

/// What decoding one more element does to the values decoded so far: a clone
/// of what the downcast of `element` finds joins them at the end, or they stay
/// as they are and the element fails with its index, which is their number.
pub open spec fn decodes_element<T: Clone>(
    before: Seq<T>,
    element: HandleView<T>,
    want: Seq<char>,
    after: Seq<T>,
    got: Result<(), ArrayError>,
) -> bool {
    match downcast(element, want) {
        Ok(value) => {
            &&& got is Ok
            &&& after.len() == before.len() + 1
            &&& after.drop_last() == before
            &&& cloned(value, after.last())
        },
        Err(cause) => {
            &&& got matches Err(error)
            &&& error@ == (ArrayErrorView::Element { index: before.len(), cause })
            &&& after == before
        },
    }
}

/// Decodes the next element of a sequence of values of type `ty`, of which
/// `typed` holds those before it: the downcast of `element` joins them, or
/// fails with the index of the element. A caller that takes the elements
/// from the host one by one stops at the first failure.
pub fn try_from_js_element<T: Clone>(
    ty: &ExportedType,
    typed: &mut Vec<T>,
    element: &ForeignHandle<T>,
) -> (r: Result<(), ArrayError>)
    ensures
        decodes_element(old(typed)@, element@, ty@.tag(), final(typed)@, r),
{
    match ty.try_from_js_value(element) {
        Ok(value) => {
            typed.push(value);
            assert(typed@.drop_last() =~= old(typed)@);
            Ok(())
        },
        Err(cause) => Err(ArrayError::Element { index: typed.len(), cause }),
    }
}

/// Whether `items` are what `element` showed of the elements of a sequence,
/// from the first one on.
pub open spec fn shown_by<T, F: Fn(usize) -> ForeignHandle<T>>(
    element: F,
    items: Seq<ForeignHandle<T>>,
) -> bool {
    forall|i: int|
        0 <= i < items.len() ==> call_ensures(element, (i as usize,), #[trigger] items[i])
}

/// Decodes a sequence of `length` values of type `ty` whose elements
/// `element` shows one by one, as a host array is read: the elements are
/// asked for in order, and none behind the first that fails. What is decoded
/// is the sequence of the elements that were shown.
pub fn try_from_js_elements<T: Clone, F: Fn(usize) -> ForeignHandle<T>>(
    ty: &ExportedType,
    length: usize,
    element: F,
) -> (r: Result<Vec<T>, ArrayError>)
    requires
        forall|i: usize| i < length ==> call_requires(element, (i,)),
    ensures
        exists|items: Seq<ForeignHandle<T>>|
            {
                &&& items.len() <= length
                &&& r is Ok ==> items.len() == length
                &&& #[trigger] shown_by(element, items)
                &&& recovers_each(r, items_values(handle_views(items), ty@.tag()))
            },
{
    let ghost mut items: Seq<ForeignHandle<T>> = Seq::empty();
    let mut typed: Vec<T> = Vec::new();
    let mut idx: usize = 0;
    while idx < length
        invariant
            idx <= length,
            items.len() == idx,
            typed@.len() == idx,
            forall|i: usize| i < length ==> call_requires(element, (i,)),
            shown_by(element, items),
            recovers_each(Ok(typed), items_values(handle_views(items), ty@.tag())),
            items_values(handle_views(items), ty@.tag()) is Ok,
        decreases length - idx,
    {
        let item = element(idx);
        let ghost before = typed@;
        let ghost shown = items.push(item);
        proof {
            lemma_handle_views(items);
            lemma_handle_views(shown);
            assert(shown.drop_last() =~= items);
            assert(handle_views(shown).drop_last() =~= handle_views(items));
        }
        match try_from_js_element(ty, &mut typed, &item) {
            Ok(()) => {
                proof {
                    let found = items_values(handle_views(shown), ty@.tag())->Ok_0;
                    assert forall|k: int| 0 <= k < found.len() implies cloned(
                        found[k],
                        #[trigger] typed@[k],
                    ) by {
                        if k < idx {
                            assert(typed@.drop_last()[k] == typed@[k]);
                            assert(cloned(found[k], before[k]));
                        }
                    }
                    items = shown;
                }
            },
            Err(error) => {
                proof {
                    assert(shown_by(element, shown));
                    assert(recovers_each(
                        Err::<Vec<T>, ArrayError>(error),
                        items_values(handle_views(shown), ty@.tag()),
                    ));
                }
                return Err(error);
            },
        }
        idx += 1;
    }
    Ok(typed)
}

/// Decodes a handle as a sequence of values of type `ty`: the handle must be
/// array-shaped, and each element in turn must downcast. The first element
/// that does not fails the whole decoding, with its index. The handle and its
/// elements stay valid.
pub fn try_from_js_array<T: Clone>(ty: &ExportedType, val: &ForeignHandle<T>) -> (r: Result<
    Vec<T>,
    ArrayError,
>)
    ensures
        recovers_each(r, array_values(val@, ty@.tag())),
{
    match val {
        ForeignHandle::Array(items) => {
            let ghost views = val@->Array_0;
            let ghost want = ty@.tag();
            proof {
                lemma_handle_views(items@);
            }
            let mut typed: Vec<T> = Vec::with_capacity(items.len());
            let mut idx: usize = 0;
            while idx < items.len()
                invariant
                    idx <= items@.len(),
                    val@ == HandleView::Array(views),
                    views.len() == items@.len(),
                    forall|k: int| 0 <= k < items@.len() ==> views[k] == (#[trigger] items@[k])@,
                    want == ty@.tag(),
                    typed@.len() == idx,
                    recovers_each(Ok(typed), items_values(views.take(idx as int), want)),
                    items_values(views.take(idx as int), want) is Ok,
                decreases items@.len() - idx,
            {
                proof {
                    assert(views.take(idx + 1).drop_last() =~= views.take(idx as int));
                }
                let ghost before = typed@;
                match try_from_js_element(ty, &mut typed, &items[idx]) {
                    Ok(()) => {
                        proof {
                            let found = items_values(views.take(idx + 1), want)->Ok_0;
                            assert(views.take(idx + 1).last() == items@[idx as int]@);
                            assert forall|k: int| 0 <= k < found.len() implies cloned(
                                found[k],
                                #[trigger] typed@[k],
                            ) by {
                                if k < idx {
                                    assert(typed@.drop_last()[k] == typed@[k]);
                                    assert(cloned(found[k], before[k]));
                                }
                            }
                        }
                    },
                    Err(error) => {
                        proof {
                            lemma_first_failure_stays(views, want, idx + 1);
                        }
                        return Err(error);
                    },
                }
                idx += 1;
            }
            assert(views.take(idx as int) =~= views);
            Ok(typed)
        },
        _ => Err(ArrayError::NotArray),
    }
}

} // verus!
