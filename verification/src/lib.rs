//! Batch-verification gateway for anonymous deposit conversions.
//!
//! A deposit turns a transparent asset record into an anonymous commitment,
//! authenticated by a zero-knowledge proof. This library is the orchestration
//! layer around that conversion: it decodes a wire-encoded batch of deposit
//! requests from untrusted bytes, enforces the structural invariant that the
//! batch's six sequences share one length, computes the deterministic gas
//! cost of the batch, and aggregates the per-request verification outcomes
//! reported by the host's cryptographic oracle into a single pass/fail
//! result with a stable error kind.
//!
//! The zero-knowledge proof system itself is an external collaborator: the
//! host runs each request's proof check and hands the per-request outcomes
//! back to [`deposit::Deposit::check`].

pub mod abi;
pub mod amount;
pub mod deposit;
pub mod error;
