use vstd::prelude::*;

verus! {

/// The failure kinds of class loading, symbolic resolution, and execution.
///
/// Parsing and resolution failures abort the load of the class concerned;
/// they never produce a partially populated class. `Io` stands for a storage
/// failure reported by the caller that read the class bytes.
#[derive(Clone, Copy, Debug, PartialEq, Eq, Structural)]
pub enum Error {
    /// No loaded class has the requested name.
    ClassNotFound,
    /// The class exists but has no instance `run()` entry point.
    ClassNotRunnable,
    /// The class exists but has no static `main(String[])` entry point.
    ClassNotMain,
    /// A structural or referential malformation in the class-file bytes:
    /// bad magic or version, a malformed constant chain, a truncated record,
    /// or an unknown opcode.
    InvalidClass,
    /// The class bytes could not be read from storage.
    Io,
}

} // verus!
