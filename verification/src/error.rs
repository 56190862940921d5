//! The Python exceptions the attribute layer raises.

use vstd::prelude::*;
use crate::object::PyObject;

verus! {

/// An exception as raised by the attribute layer: its Python class and the
/// data it carries.
#[derive(Debug, PartialEq)]
pub enum PyError {
    TypeError(String),
    ValueError(String),
    OverflowError(String),
    ZeroDivisionError(String),
    MemoryError(String),
    IndexError(String),
    KeyError(String),
    RuntimeError(String),
    OsError(String),
    ReferenceError(String),
    /// A plain `AttributeError` with its message.
    AttributeError(String),
    /// An `AttributeError` that also records the attribute name (`exc.name`),
    /// the type name of the object it was looked up on, and a value copy of
    /// that object (`exc.obj`).
    AttributeErrorWithContext { message: String, name: String, obj_type: String, obj: Box<PyObject> },
    /// `UnicodeEncodeError(encoding, object, start, end, reason)`.
    UnicodeEncodeError { encoding: String, object: String, start: usize, end: usize, reason: String },
}

/// What a `PyError` is, with strings as character sequences. The object an
/// `AttributeError` records is left out; `object::resolve_attr` states what
/// it is.
pub enum PyErrorView {
    TypeError(Seq<char>),
    ValueError(Seq<char>),
    OverflowError(Seq<char>),
    ZeroDivisionError(Seq<char>),
    MemoryError(Seq<char>),
    IndexError(Seq<char>),
    KeyError(Seq<char>),
    RuntimeError(Seq<char>),
    OsError(Seq<char>),
    ReferenceError(Seq<char>),
    AttributeError(Seq<char>),
    AttributeErrorWithContext { message: Seq<char>, name: Seq<char>, obj_type: Seq<char> },
    UnicodeEncodeError { encoding: Seq<char>, object: Seq<char>, start: usize, end: usize, reason: Seq<char> },
}

impl View for PyError {
    type V = PyErrorView;

    open spec fn view(&self) -> PyErrorView {
        match self {
            PyError::TypeError(m) => PyErrorView::TypeError(m@),
            PyError::ValueError(m) => PyErrorView::ValueError(m@),
            PyError::OverflowError(m) => PyErrorView::OverflowError(m@),
            PyError::ZeroDivisionError(m) => PyErrorView::ZeroDivisionError(m@),
            PyError::MemoryError(m) => PyErrorView::MemoryError(m@),
            PyError::IndexError(m) => PyErrorView::IndexError(m@),
            PyError::KeyError(m) => PyErrorView::KeyError(m@),
            PyError::RuntimeError(m) => PyErrorView::RuntimeError(m@),
            PyError::OsError(m) => PyErrorView::OsError(m@),
            PyError::ReferenceError(m) => PyErrorView::ReferenceError(m@),
            PyError::AttributeError(m) => PyErrorView::AttributeError(m@),
            PyError::AttributeErrorWithContext { message, name, obj_type, .. } =>
                PyErrorView::AttributeErrorWithContext { message: message@, name: name@, obj_type: obj_type@ },
            PyError::UnicodeEncodeError { encoding, object, start, end, reason } =>
                PyErrorView::UnicodeEncodeError { encoding: encoding@, object: object@, start: *start, end: *end, reason: reason@ },
        }
    }
}

/// The message an exception carries (the reason, for an encoding error).
pub open spec fn err_msg(e: PyError) -> Seq<char> {
    match e {
        PyError::TypeError(m) => m@,
        PyError::ValueError(m) => m@,
        PyError::OverflowError(m) => m@,
        PyError::ZeroDivisionError(m) => m@,
        PyError::MemoryError(m) => m@,
        PyError::IndexError(m) => m@,
        PyError::KeyError(m) => m@,
        PyError::RuntimeError(m) => m@,
        PyError::OsError(m) => m@,
        PyError::ReferenceError(m) => m@,
        PyError::AttributeError(m) => m@,
        PyError::AttributeErrorWithContext { message, .. } => message@,
        PyError::UnicodeEncodeError { reason, .. } => reason@,
    }
}

} // verus!
