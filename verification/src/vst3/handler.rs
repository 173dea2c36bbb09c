//! A minimal component handler.
//!
//! VST3 plugins use the component handler to notify the host about parameter edits (for
//! example when the user turns a knob in the plugin's own editor). Since this host does not embed
//! the plugin's native GUI, every callback is simply acknowledged. Passing a valid handler rather
//! than none keeps plugins that assume a host handler is present happy.

use vstd::prelude::*;

use super::{TResult, K_RESULT_OK};

verus! {

/// A component handler that acknowledges every notification.
pub struct HostComponentHandler;

impl HostComponentHandler {
    /// A parameter edit starts.
    pub fn begin_edit(&self, _id: u32) -> (result: TResult)
        ensures
            result == K_RESULT_OK,
    {
        K_RESULT_OK
    }

    /// A parameter is set to a normalised value while it is being edited.
    pub fn perform_edit(&self, _id: u32, _value_normalized: u64) -> (result: TResult)
        ensures
            result == K_RESULT_OK,
    {
        K_RESULT_OK
    }

    /// A parameter edit ends.
    pub fn end_edit(&self, _id: u32) -> (result: TResult)
        ensures
            result == K_RESULT_OK,
    {
        K_RESULT_OK
    }

    /// The plugin asks for the component to be restarted.
    pub fn restart_component(&self, _flags: i32) -> (result: TResult)
        ensures
            result == K_RESULT_OK,
    {
        K_RESULT_OK
    }
}

/// Creates a component handler that can be handed to a plugin's edit controller.
pub fn create_component_handler() -> (handler: HostComponentHandler) {
    HostComponentHandler
}

} // verus!
