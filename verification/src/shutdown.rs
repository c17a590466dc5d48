//! The flag that asks a capture to stop.

use crate::capture::stop_requested;
use std::sync::atomic::AtomicBool;
use std::sync::Arc;
use vstd::prelude::*;

verus! {

/// Holds the flag that asks a capture to stop. Whoever has the flag can set it at any
/// time.
#[derive(Debug)]
pub struct ShutdownHandler {
    shutdown_flag: Arc<AtomicBool>,
}

impl ShutdownHandler {
    /// The flag.
    pub closed spec fn spec_flag(self) -> Arc<AtomicBool> {
        self.shutdown_flag
    }

    /// A handler whose flag is not set.
    pub fn new() -> (handler: ShutdownHandler) {
        ShutdownHandler { shutdown_flag: Arc::new(AtomicBool::new(false)) }
    }

    /// The flag, to be shared.
    pub fn flag(&self) -> (flag: Arc<AtomicBool>)
        ensures
            flag == self.spec_flag(),
    {
        self.shutdown_flag.clone()
    }

    /// Whether the flag is set. Another thread may set it at any time, so nothing is
    /// claimed of the result.
    pub fn is_shutdown_requested(&self) -> (requested: bool) {
        stop_requested(&self.shutdown_flag)
    }
}

impl Default for ShutdownHandler {
    fn default() -> (handler: ShutdownHandler) {
        ShutdownHandler::new()
    }
}

} // verus!
