//! Reading the wall-clock time from the CMOS real-time clock of a PC.
//!
//! The clock sits behind a pair of I/O ports: a register index is written to
//! the address port and the register's content is then read from the data
//! port. This crate holds everything about that device except the port access
//! itself: which register to select next, when a sample of the time registers
//! can be trusted, and how the raw bytes become a [`Time`].
//!
//! A driver owns the two ports and runs the exchange:
//!
//! 1. [`ReadRTC::start`] gives the initial [`Progress`];
//! 2. [`ReadRTC::request`] names the register to select, or nothing once the
//!    time is known;
//! 3. the driver selects it, reads one byte and hands it to
//!    [`ReadRTC::advance`].
//!
//! Exactly one such exchange may be in flight per physical device: selecting a
//! register and reading it are two separate port operations.

pub mod decode;
pub mod exchange;
pub mod reader;
pub mod registers;
pub mod time;

pub use reader::{Progress, ReadRTC};
pub use registers::Sample;
pub use time::Time;
