//! The parts of a VST3 host that are plain data: the in-memory stream a plugin's state is moved
//! through, the parameter changes handed to a plugin's processor, the host's own name, and the
//! strings a plugin reports.

use vstd::prelude::*;

pub mod handler;
pub mod host;
pub mod param_changes;
pub mod strings;
pub mod stream;

verus! {

/// The result code of a VST3 call.
pub type TResult = i32;

/// The call succeeded (`kResultOk`).
pub const K_RESULT_OK: TResult = 0;

/// An argument of the call was not valid (`kInvalidArgument`).
pub const K_INVALID_ARGUMENT: TResult = 2;

/// The call is not implemented (`kNotImplemented`).
pub const K_NOT_IMPLEMENTED: TResult = 3;

} // verus!
