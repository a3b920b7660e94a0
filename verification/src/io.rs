//! The console error type.
//!
//! The core never performs console I/O itself — bytes flow through the
//! queues in [`crate::vm::Vm`] — but the error taxonomy keeps a place for a
//! host-side console failure, so a host can surface one through
//! [`crate::vm_spec::TickError::Io`].

use vstd::prelude::*;

verus! {

/// A console failure, wrapping the OS-level error code.
#[derive(Clone, Copy, Debug, PartialEq, Eq, Structural)]
pub struct IoError(pub i32);

} // verus!
