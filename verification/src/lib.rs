//! Typed values across a boundary to a host runtime that holds only opaque,
//! dynamically typed handles.
//!
//! A native type that is exported to the host gets an identity tag
//! ([`derive`]). A handle is recovered as a native value only after the tag
//! that it reports through reflection has been compared with the tag of the
//! target type ([`exported`]), and the handle stays valid: the value is cloned
//! out of it. On top of this stand two codecs ([`helpers`]): an optional
//! value is a handle or the absence marker, a sequence is a host array of
//! handles, decoded element by element.
//!
//! The host side is modelled by [`handle::ForeignHandle`], which holds what
//! reflection shows of a host value. What is decided here is proved for every
//! such value; [`laws`] states what holds between encoding and decoding.
//!
//! A declaration is parsed by `syn` ([`syntax`]), of whose answers nothing is
//! assumed; a text that it cannot be trusted with is refused first ([`scan`]).

pub mod derive;
pub mod error;
pub mod exported;
pub mod handle;
pub mod helpers;
pub mod laws;
pub mod scan;
pub mod syntax;
pub mod text;

pub use derive::{derive_try_from_jsvalue, needed_part, read_declaration, DeriveError};
pub use error::{ArrayError, CastError, ErrorKind};
pub use exported::ExportedType;
pub use handle::{ForeignHandle, ObjectHandle, Reporter};
pub use helpers::{
    into_js_array, into_js_option, try_from_js_array, try_from_js_element, try_from_js_elements,
    try_from_js_option,
};
