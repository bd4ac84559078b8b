//! Errors of a conversion.
use vstd::prelude::*;

verus! {

/// Which rule a conversion broke.
#[derive(Debug, Clone, Copy, PartialEq, Eq, Structural)]
pub enum ErrorKind {
    /// An inline scripting line lacks the indentation locked by the first one
    /// (the locked width).
    PyIndent(usize),
    /// `<INST>` is indented less than its scripting context.
    InstIndent,
    /// `<INST>` inside an open INST block.
    NestedInst,
    /// `</INST>` with no open INST block.
    UnmatchedEnd,
    /// The INST block is not a well-formed document.
    Yaml,
    /// The INST block has no `module`.
    NoModule,
    /// A `vparams` entry is neither text nor a scalar.
    InvalidVparams,
    /// The INST block has no `name`.
    NoName,
    /// A `ports` entry is neither text nor a scalar.
    InvalidPorts,
    /// The template pattern does not compile.
    BadPattern,
}

/// An error of a conversion: its kind and the text it concerns (the offending
/// line, or the parser's message), which may be empty.
#[derive(Debug)]
pub struct ConvertError {
    pub kind: ErrorKind,
    pub detail: String,
}

impl ConvertError {
    pub fn new(kind: ErrorKind) -> (r: ConvertError)
        ensures
            r.kind == kind,
            r.detail@ == Seq::<char>::empty(),
    {
        ConvertError { kind, detail: String::new() }
    }

    pub fn with_detail(kind: ErrorKind, detail: String) -> (r: ConvertError)
        ensures
            r.kind == kind,
            r.detail == detail,
    {
        ConvertError { kind, detail }
    }
}

} // verus!
