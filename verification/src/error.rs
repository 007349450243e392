//! Failures of identity recovery and of the two codecs.

use vstd::prelude::*;
use crate::text::{decimal, render_decimal};

verus! {

/// The four families of runtime failure.
#[derive(Clone, Copy, Debug, PartialEq, Eq, Structural)]
pub enum ErrorKind {
    /// The handle does not have the shape that the operation needs.
    Shape,
    /// The handle does not prove the identity that the target asks for.
    Identity,
    /// One element of a sequence could not be recovered.
    Composite,
    /// The pointer field does not follow the export runtime's convention.
    BoundaryConvention,
}

/// Why a handle could not be recovered as a value of the target type.
#[derive(Debug, PartialEq, Eq)]
pub enum CastError {
    /// The handle is not object-shaped; `want` is the target's identity tag.
    NotObject { want: String },
    /// The object has no identity reporter.
    NoReporter,
    /// What stands under the reporter's name cannot be invoked.
    ReporterNotCallable,
    /// The reporter failed, or did not return a string.
    ReporterFailed,
    /// The object reports the tag `got`, the target's tag is `want`.
    Mismatch { got: String, want: String },
    /// The identity matches, but the pointer field is unreadable or holds no
    /// number.
    PointerUnreadable,
}

/// Mathematical value of a [`CastError`].
pub enum CastErrorView {
    NotObject { want: Seq<char> },
    NoReporter,
    ReporterNotCallable,
    ReporterFailed,
    Mismatch { got: Seq<char>, want: Seq<char> },
    PointerUnreadable,
}

impl CastErrorView {
    /// The family a failure belongs to.
    pub open spec fn kind(self) -> ErrorKind {
        match self {
            CastErrorView::NotObject { .. } => ErrorKind::Shape,
            CastErrorView::PointerUnreadable => ErrorKind::BoundaryConvention,
            _ => ErrorKind::Identity,
        }
    }

    /// The text shown for a failure.
    pub open spec fn message(self) -> Seq<char> {
        match self {
            CastErrorView::NotObject { want } => "Value supplied as "@ + want
                + " is not an object"@,
            CastErrorView::NoReporter => "no identity reporter found"@,
            CastErrorView::ReporterNotCallable => "__getClassname is not a function"@,
            CastErrorView::ReporterFailed => "Failed to get classname"@,
            CastErrorView::Mismatch { got, want } => "identity mismatch: got "@ + got
                + ", want "@ + want,
            CastErrorView::PointerUnreadable => "__wbg_ptr is not a readable number"@,
        }
    }
}

impl View for CastError {
    type V = CastErrorView;

    open spec fn view(&self) -> CastErrorView {
        match self {
            CastError::NotObject { want } => CastErrorView::NotObject { want: want@ },
            CastError::NoReporter => CastErrorView::NoReporter,
            CastError::ReporterNotCallable => CastErrorView::ReporterNotCallable,
            CastError::ReporterFailed => CastErrorView::ReporterFailed,
            CastError::Mismatch { got, want } => CastErrorView::Mismatch {
                got: got@,
                want: want@,
            },
            CastError::PointerUnreadable => CastErrorView::PointerUnreadable,
        }
    }
}

impl CastError {
    /// The family this failure belongs to.
    pub fn kind(&self) -> (r: ErrorKind)
        ensures
            r == self@.kind(),
    {
        match self {
            CastError::NotObject { .. } => ErrorKind::Shape,
            CastError::PointerUnreadable => ErrorKind::BoundaryConvention,
            _ => ErrorKind::Identity,
        }
    }

    /// The text shown for this failure.
    pub fn message(&self) -> (r: String)
        ensures
            r@ == self@.message(),
    {
        match self {
            CastError::NotObject { want } => {
                let mut text = String::from_str("Value supplied as ");
                text.append(want.as_str());
                text.append(" is not an object");
                text
            },
            CastError::NoReporter => String::from_str("no identity reporter found"),
            CastError::ReporterNotCallable => String::from_str(
                "__getClassname is not a function",
            ),
            CastError::ReporterFailed => String::from_str("Failed to get classname"),
            CastError::Mismatch { got, want } => {
                let mut text = String::from_str("identity mismatch: got ");
                text.append(got.as_str());
                text.append(", want ");
                text.append(want.as_str());
                text
            },
            CastError::PointerUnreadable => String::from_str(
                "__wbg_ptr is not a readable number",
            ),
        }
    }
}

/// Why a handle could not be decoded as a sequence of values.
#[derive(Debug, PartialEq, Eq)]
pub enum ArrayError {
    /// The handle is not array-shaped.
    NotArray,
    /// The element at `index` could not be recovered, for the reason `cause`.
    Element { index: usize, cause: CastError },
}

/// Mathematical value of an [`ArrayError`].
pub enum ArrayErrorView {
    NotArray,
    Element { index: nat, cause: CastErrorView },
}

impl ArrayErrorView {
    /// The family a failure belongs to.
    pub open spec fn kind(self) -> ErrorKind {
        match self {
            ArrayErrorView::NotArray => ErrorKind::Shape,
            ArrayErrorView::Element { .. } => ErrorKind::Composite,
        }
    }

    /// The text shown for a failure: for an element, its index and then the
    /// text of the cause.
    pub open spec fn message(self) -> Seq<char> {
        match self {
            ArrayErrorView::NotArray => "The argument must be an array"@,
            ArrayErrorView::Element { index, cause } => "Failed to cast item "@ + decimal(index)
                + ": "@ + cause.message(),
        }
    }
}

impl View for ArrayError {
    type V = ArrayErrorView;

    open spec fn view(&self) -> ArrayErrorView {
        match self {
            ArrayError::NotArray => ArrayErrorView::NotArray,
            ArrayError::Element { index, cause } => ArrayErrorView::Element {
                index: *index as nat,
                cause: cause@,
            },
        }
    }
}

impl ArrayError {
    /// The family this failure belongs to.
    pub fn kind(&self) -> (r: ErrorKind)
        ensures
            r == self@.kind(),
    {
        match self {
            ArrayError::NotArray => ErrorKind::Shape,
            ArrayError::Element { .. } => ErrorKind::Composite,
        }
    }

    /// The text shown for this failure.
    pub fn message(&self) -> (r: String)
        ensures
            r@ == self@.message(),
    {
        match self {
            ArrayError::NotArray => String::from_str("The argument must be an array"),
            ArrayError::Element { index, cause } => {
                let mut text = String::from_str("Failed to cast item ");
                let number = render_decimal(*index);
                text.append(number.as_str());
                text.append(": ");
                let reason = cause.message();
                text.append(reason.as_str());
                text
            },
        }
    }
}

} // verus!
