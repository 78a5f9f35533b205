//! A counter that walks the Fibonacci sequence one term at a time.
//!
//! [`Fibo`] holds two neighbouring terms and the one-based position of the
//! term it stands on. Every operation is specified against
//! [`SequenceState`], the mathematical state machine over unbounded
//! naturals, and against [`term`], the sequence itself.

pub mod codec;
pub mod counter;
pub mod error;
pub mod record;
pub mod sequence;

pub use counter::Fibo;
pub use error::FiboError;
pub use codec::RECORD_LEN;
pub use record::RESET_RECORD;
pub use sequence::{term, SequenceState, MAX_POSITION};
