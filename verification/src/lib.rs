//! Verification of proofs of reserves.
//!
//! A proof of reserves is a signed transaction that can never be mined. Its
//! first input commits to a challenge message, and its other inputs spend
//! the outputs whose ownership is to be shown. This library decides whether
//! such a proof shows that funds at a set of claimed addresses are unspent
//! and under the prover's control, and how much they amount to.
//!
//! - [`session`] takes a request from its arrival to its result. It asks
//!   its caller to query the chain and is told the answers; it does no
//!   input or output of its own. [`chain`] says what a session comes to
//!   against one view of the chain.
//! - [`decoder`] reads a proof from its text.
//! - [`resolver`] holds the rules on addresses, confirmations and the
//!   chain's answers.
//! - [`reserves`] verifies a decoded proof against the resolved outputs,
//!   with [`commitment`], [`matching`], [`failure`] and [`scripts`] for its
//!   parts.
//! - [`model`] and [`error`] hold the values that all of them speak of.
//! - [`foreign`] holds the calls into other libraries, none of which is
//!   proved.

pub mod bytes;
pub mod chain;
pub mod commitment;
pub mod decoder;
pub mod error;
pub mod failure;
pub mod foreign;
pub mod matching;
pub mod model;
pub mod reserves;
pub mod resolver;
pub mod scripts;
pub mod session;
