//! Transport between a user-space filesystem and the kernel's virtual
//! filesystem driver, written without any I/O of its own.
//!
//! The crate decides; its caller acts. Every function here either names the
//! one primitive that is to be invoked next (a read, a write, a driver
//! entry point) or takes what that primitive handed back, as a
//! [`os::Completion`], and says what follows from it. The raw calls
//! themselves are made by the code around this crate.
//!
//! * [`channel`] holds the two sides of a communication handle: the one
//!   reader and the senders, of which there may be any number.
//! * [`mount`] drives a driver session from creation to destruction.
//! * [`os`] holds the plain values that pass between the two.

pub mod channel;
pub mod mount;
pub mod os;
