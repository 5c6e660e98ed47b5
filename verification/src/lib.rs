//! Verified session layer in front of a native Gaussian-integral library.
//!
//! The native library evaluates integrals over Gaussian-type orbitals. It reads
//! three flat tables (atoms, shells, environment) and writes dense blocks of
//! integrals. This crate holds everything around those calls that can be
//! proved: how arrays are lent to foreign code and taken back, how the tables
//! are laid out, how many components a shell has, how large an output block
//! is, which entry point serves a request, and in which states of a session a
//! request is legal. The foreign calls themselves are made by the caller, on
//! what the session hands out.

pub mod basis;
pub mod call;
pub mod error;
pub mod family;
pub mod model;
pub mod session;
pub mod transfer;

pub use basis::CintType;
pub use call::{IntegralCall, LentCall};
pub use error::CintError;
pub use family::{IntegralFamily, IJIPOPT, IJOPT};
pub use session::{Tables, CINTR2CDATA};
pub use transfer::{reclaim, release, Lent};
