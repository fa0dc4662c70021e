use vstd::prelude::*;
use std::sync::atomic::{AtomicBool, Ordering};
use std::sync::Arc;
use crate::mapreduce::shutdown_signal::ShutdownSignal;

verus! {

/// A shutdown signal shared among threads: one atomic flag, set once by
/// the coordinator and polled by the workers. Whether a poll sees the flag
/// depends on thread timing, so nothing more than the polling protocol can
/// be promised about it.
#[derive(Clone)]
pub struct SocketShutdownSignal {
    flag: Arc<AtomicBool>,
}

impl SocketShutdownSignal {
    pub fn new() -> Self {
        SocketShutdownSignal { flag: Arc::new(AtomicBool::new(false)) }
    }

    pub fn shutdown(&self) {
        self.flag.store(true, Ordering::SeqCst);
    }
}

impl ShutdownSignal for SocketShutdownSignal {
    fn is_cancelled(&self) -> bool {
        self.flag.load(Ordering::SeqCst)
    }
}

} // verus!
