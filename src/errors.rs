//! Failures reported across the boundary, each as a code and a description.

use vstd::prelude::*;

verus! {

/// Why a peer refused or failed an IPC request.
#[derive(PartialEq, Eq, Structural, Clone, Copy, Debug)]
pub enum IpcError {
    AuthDenied,
    ContainersDenied,
    ShareMDataDenied,
    AlreadyAuthorised,
    InvalidMsg,
    EncodeDecodeError,
    Unknown,
}

/// Every failure that this layer reports.
#[derive(PartialEq, Eq, Structural, Clone, Copy, Debug)]
pub enum FfiError {
    /// A request could not be serialised; nothing was produced.
    EncodingError,
    /// A message could not be read, or is of a kind not expected here.
    InvalidMessage,
    /// The handle is unknown, of another kind, or already freed.
    InvalidHandle,
    /// The key is not present.
    NoSuchEntry,
    /// The worker no longer accepts operations.
    Disconnected,
    /// An unexpected internal condition, caught before it crossed the boundary.
    InternalFault,
    /// An error carried by a response.
    Ipc(IpcError),
}

/// The numeric code of each error.
pub open spec fn spec_error_code(e: FfiError) -> int {
    match e {
        FfiError::EncodingError => -1,
        FfiError::InvalidMessage => -2,
        FfiError::InvalidHandle => -3,
        FfiError::NoSuchEntry => -4,
        FfiError::Disconnected => -5,
        FfiError::InternalFault => -6,
        FfiError::Ipc(k) => match k {
            IpcError::AuthDenied => -100,
            IpcError::ContainersDenied => -101,
            IpcError::ShareMDataDenied => -102,
            IpcError::AlreadyAuthorised => -103,
            IpcError::InvalidMsg => -104,
            IpcError::EncodeDecodeError => -105,
            IpcError::Unknown => -106,
        },
    }
}

/// The human-readable description of each error.
pub open spec fn spec_description(e: FfiError) -> Seq<char> {
    match e {
        FfiError::EncodingError => "failed to encode the message"@,
        FfiError::InvalidMessage => "invalid or unexpected message"@,
        FfiError::InvalidHandle => "invalid object handle"@,
        FfiError::NoSuchEntry => "no such entry"@,
        FfiError::Disconnected => "the worker is no longer running"@,
        FfiError::InternalFault => "unexpected internal fault"@,
        FfiError::Ipc(k) => match k {
            IpcError::AuthDenied => "authorisation denied"@,
            IpcError::ContainersDenied => "access to containers denied"@,
            IpcError::ShareMDataDenied => "sharing of mutable data denied"@,
            IpcError::AlreadyAuthorised => "application already authorised"@,
            IpcError::InvalidMsg => "peer reported an invalid message"@,
            IpcError::EncodeDecodeError => "peer failed to encode or decode"@,
            IpcError::Unknown => "unknown peer error"@,
        },
    }
}

/// Every description is non-empty.
pub proof fn lemma_description_nonempty(e: FfiError)
    ensures
        spec_description(e).len() > 0,
{
    reveal_strlit("failed to encode the message");
    reveal_strlit("invalid or unexpected message");
    reveal_strlit("invalid object handle");
    reveal_strlit("no such entry");
    reveal_strlit("the worker is no longer running");
    reveal_strlit("unexpected internal fault");
    reveal_strlit("authorisation denied");
    reveal_strlit("access to containers denied");
    reveal_strlit("sharing of mutable data denied");
    reveal_strlit("application already authorised");
    reveal_strlit("peer reported an invalid message");
    reveal_strlit("peer failed to encode or decode");
    reveal_strlit("unknown peer error");
}

impl FfiError {
    /// The error's code: negative, and different for each error.
    pub fn error_code(&self) -> (r: i32)
        ensures
            r == spec_error_code(*self),
            r < 0,
    {
        match self {
            FfiError::EncodingError => -1,
            FfiError::InvalidMessage => -2,
            FfiError::InvalidHandle => -3,
            FfiError::NoSuchEntry => -4,
            FfiError::Disconnected => -5,
            FfiError::InternalFault => -6,
            FfiError::Ipc(k) => match k {
                IpcError::AuthDenied => -100,
                IpcError::ContainersDenied => -101,
                IpcError::ShareMDataDenied => -102,
                IpcError::AlreadyAuthorised => -103,
                IpcError::InvalidMsg => -104,
                IpcError::EncodeDecodeError => -105,
                IpcError::Unknown => -106,
            },
        }
    }

    /// A human-readable description of the error.
    pub fn description(&self) -> (r: &'static str)
        ensures
            r@ == spec_description(*self),
            r@.len() > 0,
    {
        proof {
            lemma_description_nonempty(*self);
        }
        match self {
            FfiError::EncodingError => "failed to encode the message",
            FfiError::InvalidMessage => "invalid or unexpected message",
            FfiError::InvalidHandle => "invalid object handle",
            FfiError::NoSuchEntry => "no such entry",
            FfiError::Disconnected => "the worker is no longer running",
            FfiError::InternalFault => "unexpected internal fault",
            FfiError::Ipc(k) => match k {
                IpcError::AuthDenied => "authorisation denied",
                IpcError::ContainersDenied => "access to containers denied",
                IpcError::ShareMDataDenied => "sharing of mutable data denied",
                IpcError::AlreadyAuthorised => "application already authorised",
                IpcError::InvalidMsg => "peer reported an invalid message",
                IpcError::EncodeDecodeError => "peer failed to encode or decode",
                IpcError::Unknown => "unknown peer error",
            },
        }
    }

    /// The (code, description) pair handed across the boundary.
    pub fn to_pair(&self) -> (r: (i32, &'static str))
        ensures
            r.0 == spec_error_code(*self),
            r.1@ == spec_description(*self),
    {
        (self.error_code(), self.description())
    }
}

/// Distinct errors have distinct codes.
pub proof fn lemma_error_codes_distinct(a: FfiError, b: FfiError)
    requires
        a != b,
    ensures
        spec_error_code(a) != spec_error_code(b),
{
}

} // verus!
