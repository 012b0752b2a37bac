use vstd::prelude::*;

verus! {

/// The errors a bridge entry point can surface to the host.
///
/// `InvalidHandle`, `WrongViewKind` and `StorageError` are expected,
/// recoverable outcomes; `NativeFault` is produced only by the boundary
/// sealer, for a fault captured at the call boundary.
#[derive(Debug)]
pub enum BridgeError {
    /// The handle is unknown, already freed, or tagged with a type other than
    /// the expected one. Raised before any mutation occurs.
    InvalidHandle,
    /// The handle is valid, but the requested operation is not permitted on
    /// the kind of view it refers to (for example, a write through a
    /// snapshot). Raised before any mutation occurs.
    WrongViewKind,
    /// An unrecoverable native fault, captured at the call boundary instead
    /// of being allowed to unwind into the host runtime.
    NativeFault { message: String },
    /// A failure of the underlying storage engine, with its cause.
    StorageError { message: String },
}

} // verus!
