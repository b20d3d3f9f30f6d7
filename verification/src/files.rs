//! How files are opened.

use vstd::prelude::*;

verus! {

/// What an open file may be used for.
#[derive(Debug, Clone, Copy, PartialEq, Eq, Structural)]
pub enum Access {
    ReadOnly,
    ReadWrite,
}

/// How a file is opened.
#[derive(Debug, Clone, Copy, PartialEq, Eq, Structural)]
pub struct OpenFlags {
    pub access: Access,
    /// Make the file where there is none.
    pub create: bool,
    /// Fail where there is one already.
    pub exclusive: bool,
    /// Close the file when another program is executed.
    pub close_on_exec: bool,
    /// Do not let a terminal become the controlling one.
    pub no_controlling_terminal: bool,
    /// Do not wait for data.
    pub nonblocking: bool,
}

} // verus!
