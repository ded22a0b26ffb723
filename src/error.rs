use vstd::prelude::*;

verus! {

/// The step of a boundary crossing in which an error was detected.
#[derive(Clone, Copy, Debug, PartialEq, Eq, Structural)]
pub enum Phase {
    /// Resolving the instance's exports, before any call.
    Resolve,
    /// Admitting a call: the instance's state and the call's arguments.
    Start,
    Allocate,
    Write,
    Call,
    Read,
    Deallocate,
    Decode,
    Encode,
}

/// Every way a crossing of the host/guest boundary can fail.
#[derive(Clone, Copy, Debug, PartialEq, Eq, Structural)]
pub enum BridgeError {
    /// A required export (memory, allocator, setup or a procedure) is absent.
    MissingExport,
    /// An export exists but its low-level call shape is not the expected one.
    SignatureMismatch,
    /// An encoding is larger than the 32-bit address space can hold.
    SizeOverflow,
    /// An address/size pair does not lie within the current linear memory.
    BoundsViolation,
    /// The guest allocator returned the null address.
    AllocationFailure,
    /// The sandbox reported a trap while the guest was running.
    GuestTrap,
    /// Bytes do not decode as a value of the expected type.
    EncodingError,
    /// The instance already holds a configuration.
    AlreadyConfigured,
    /// No configuration was installed before a procedure call.
    NotConfigured,
    /// The instance faulted earlier and accepts no further calls.
    Faulted,
    /// Arguments handed to a call do not match the procedure's signature.
    ArgumentMismatch,
    /// The registry holds no such procedure.
    UnknownProcedure,
    /// The guest neither implements the procedure nor has a default body for it.
    Unimplemented,
}

} // verus!
