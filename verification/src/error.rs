//! The ways in which loading and linking fail.

use crate::abi::{FunctionPrototype, PrototypeView};
use vstd::prelude::*;

verus! {

/// Why an assembly could not be loaded or linked.
#[derive(Debug)]
pub enum Error {
    /// The assembly was compiled for an ABI version other than the
    /// runtime's: the version expected, then the one found. No assembly is
    /// constructed.
    AbiMismatch(u32, u32),
    /// A call site expects a function whose name is exported, but with a
    /// different signature: the name, the prototype expected, then the one
    /// found. Waiting cannot mend this, so it fails the whole batch at once.
    SignatureMismatch(String, FunctionPrototype, FunctionPrototype),
    /// Nothing exports the functions of these names, which call sites of the
    /// batch expect.
    MissingDependency(Vec<String>),
    /// The native library could not be opened.
    LoadError(String),
}

/// What an [`Error`] stands for in contracts.
pub enum ErrorView {
    AbiMismatch(u32, u32),
    SignatureMismatch(Seq<char>, PrototypeView, PrototypeView),
    MissingDependency(Seq<Seq<char>>),
    LoadError(Seq<char>),
}

impl View for Error {
    type V = ErrorView;

    open spec fn view(&self) -> ErrorView {
        match self {
            Error::AbiMismatch(expected, found) => ErrorView::AbiMismatch(*expected, *found),
            Error::SignatureMismatch(name, expected, found) => ErrorView::SignatureMismatch(
                name@,
                expected@,
                found@,
            ),
            Error::MissingDependency(names) => ErrorView::MissingDependency(
                names@.map_values(|name: String| name@),
            ),
            Error::LoadError(message) => ErrorView::LoadError(message@),
        }
    }
}

/// Why an assembly was not swapped for its replacement.
#[derive(Debug)]
pub enum SwapError {
    /// The replacement could not be loaded. Nothing was touched: neither
    /// the assembly, nor the dispatch table, nor the heap.
    Load(Error),
    /// The replacement could not be linked. The assembly and the dispatch
    /// table are as they were, but this is no clean abort: the live objects
    /// were already migrated to the replacement's types, and the older
    /// build's code is all there is to run on them.
    Link(Error),
}

/// What a [`SwapError`] stands for in contracts.
pub enum SwapErrorView {
    Load(ErrorView),
    Link(ErrorView),
}

impl View for SwapError {
    type V = SwapErrorView;

    open spec fn view(&self) -> SwapErrorView {
        match self {
            SwapError::Load(cause) => SwapErrorView::Load(cause@),
            SwapError::Link(cause) => SwapErrorView::Link(cause@),
        }
    }
}

} // verus!
