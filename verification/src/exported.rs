//! Exported types: their identity tags and the identity-verifying downcast.

use vstd::prelude::*;
use crate::error::{CastError, CastErrorView};
use crate::handle::{ForeignHandle, HandleView, ObjectHandle, Reporter, ReporterView};

verus! {

/// A native type that is registered for crossing the boundary.
#[derive(Debug, PartialEq, Eq)]
pub struct ExportedType {
    /// The name under which the type is declared.
    pub name: String,
    /// The name that its export declaration gives it on the host side, if it
    /// gives one.
    pub alias: Option<String>,
}

/// Mathematical value of an [`ExportedType`].
pub struct ExportedTypeView {
    pub name: Seq<char>,
    pub alias: Option<Seq<char>>,
}

impl ExportedTypeView {
    /// The identity tag: the alias where there is one, else the declared name.
    pub open spec fn tag(self) -> Seq<char> {
        match self.alias {
            Some(alias) => alias,
            None => self.name,
        }
    }

    /// The attribute under which the identity reporter is registered: the
    /// export attribute, which names the host-side class where the type has
    /// an alias.
    pub open spec fn export_attribute(self) -> Seq<char> {
        match self.alias {
            Some(alias) => "::wasm_bindgen::prelude::wasm_bindgen(js_class = \""@ + alias + "\")"@,
            None => "::wasm_bindgen::prelude::wasm_bindgen"@,
        }
    }
}

/// The name under which every exported instance offers its identity
/// reporter, an operation without arguments that returns the tag.
pub fn reporter_name() -> (r: &'static str)
    ensures
        r@ == "__getClassname"@,
{
    "__getClassname"
}

/// The name of the numeric field in which the export runtime keeps the
/// address of the native value behind an instance.
pub fn pointer_field() -> (r: &'static str)
    ensures
        r@ == "__wbg_ptr"@,
{
    "__wbg_ptr"
}

impl View for ExportedType {
    type V = ExportedTypeView;

    open spec fn view(&self) -> ExportedTypeView {
        ExportedTypeView {
            name: self.name@,
            alias: match self.alias {
                Some(alias) => Some(alias@),
                None => None,
            },
        }
    }
}

/// The handle of a freshly exported `value` of the type with identity `tag`.
pub open spec fn exported<T>(tag: Seq<char>, value: T) -> HandleView<T> {
    HandleView::Object { reporter: ReporterView::Reports(tag), native: Some(value) }
}

/// What the downcast of `handle` against the identity `want` finds: the native
/// value behind the handle, or the reason why there is none to be had.
pub open spec fn downcast<T>(handle: HandleView<T>, want: Seq<char>) -> Result<T, CastErrorView> {
    match handle {
        HandleView::Object { reporter, native } => match reporter {
            ReporterView::Unreadable => Err(CastErrorView::NoReporter),
            ReporterView::Missing => Err(CastErrorView::NoReporter),
            ReporterView::NotCallable => Err(CastErrorView::ReporterNotCallable),
            ReporterView::Failed => Err(CastErrorView::ReporterFailed),
            ReporterView::Reports(got) => if got == want {
                match native {
                    Some(value) => Ok(value),
                    None => Err(CastErrorView::PointerUnreadable),
                }
            } else {
                Err(CastErrorView::Mismatch { got, want })
            },
        },
        HandleView::Array(_) => Err(CastErrorView::NoReporter),
        _ => Err(CastErrorView::NotObject { want }),
    }
}

/// `got` hands out a clone of the value that `found` holds, or the failure
/// that `found` holds.
pub open spec fn recovers<T: Clone>(
    got: Result<T, CastError>,
    found: Result<T, CastErrorView>,
) -> bool {
    match found {
        Ok(value) => got matches Ok(copy) && cloned(value, copy),
        Err(reason) => got matches Err(error) && error@ == reason,
    }
}

impl ExportedType {
    /// The exported type declared as `name`, with the host-side name `alias`
    /// where it has one.
    pub fn new(name: &str, alias: Option<&str>) -> (r: ExportedType)
        ensures
            r@.name == name@,
            r@.alias == match alias {
                Some(alias) => Some(alias@),
                None => None,
            },
    {
        ExportedType {
            name: String::from_str(name),
            alias: match alias {
                Some(alias) => Some(String::from_str(alias)),
                None => None,
            },
        }
    }

    /// The text of the attribute under which the identity reporter must be
    /// registered, so that reflection finds it on the exported instances.
    pub fn export_attribute(&self) -> (r: String)
        ensures
            r@ == self@.export_attribute(),
    {
        match &self.alias {
            Some(alias) => {
                let mut text = String::from_str(
                    "::wasm_bindgen::prelude::wasm_bindgen(js_class = \"",
                );
                text.append(alias.as_str());
                text.append("\")");
                text
            },
            None => String::from_str("::wasm_bindgen::prelude::wasm_bindgen"),
        }
    }

    /// The identity tag that instances of the type report.
    pub fn identity_tag(&self) -> (r: &str)
        ensures
            r@ == self@.tag(),
    {
        self.tag().as_str()
    }

    /// The identity tag, as the string that holds it.
    fn tag(&self) -> (r: &String)
        ensures
            r@ == self@.tag(),
    {
        match &self.alias {
            Some(alias) => alias,
            None => &self.name,
        }
    }

    /// Converts a native value into its handle: an object that reports this
    /// type's tag and is backed by the value.
    pub fn into_handle<T>(&self, value: T) -> (r: ForeignHandle<T>)
        ensures
            r@ == exported(self@.tag(), value),
    {
        let tag = self.tag().clone();
        ForeignHandle::Object(ObjectHandle { reporter: Reporter::Reports(tag), native: Some(value) })
    }

    /// Recovers a native value of this type from `handle` without consuming
    /// the handle: checks the shape, then the reported identity, and only
    /// then reads and clones the value behind the pointer field.
    pub fn try_from_js_value<T: Clone>(&self, handle: &ForeignHandle<T>) -> (r: Result<
        T,
        CastError,
    >)
        ensures
            recovers(r, downcast(handle@, self@.tag())),
    {
        let want = self.tag();
        match handle {
            ForeignHandle::Object(object) => match &object.reporter {
                Reporter::Unreadable => Err(CastError::NoReporter),
                Reporter::Missing => Err(CastError::NoReporter),
                Reporter::NotCallable => Err(CastError::ReporterNotCallable),
                Reporter::Failed => Err(CastError::ReporterFailed),
                Reporter::Reports(got) => {
                    if *got == *want {
                        match &object.native {
                            Some(value) => Ok(value.clone()),
                            None => Err(CastError::PointerUnreadable),
                        }
                    } else {
                        Err(
                            CastError::Mismatch {
                                got: got.clone(),
                                want: want.clone(),
                            },
                        )
                    }
                },
            },
            ForeignHandle::Array(_) => Err(CastError::NoReporter),
            _ => Err(CastError::NotObject { want: want.clone() }),
        }
    }
}

} // verus!
