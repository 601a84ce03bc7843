//! A minimal, readiness-driven asynchronous I/O runtime, verified.
//!
//! A reactor maps watched I/O handles to wake callbacks, a cooperative
//! scheduler drives suspendable tasks from a FIFO run queue, and a
//! connection task implements a tiny request/response protocol as an
//! explicit state machine.  All decision logic lives here and is verified;
//! the kernel-facing calls (sockets, readiness syscalls) are driven by a
//! thin unverified shell that feeds plain events in and carries actions out.

pub mod conn;
pub mod frame;
pub mod handler;
pub mod listener;
pub mod reactor;
pub mod sched;
pub mod sim;
