//! The verified core of a bridge that lets a native storage engine run in
//! a sandboxed 32-bit linear-memory environment and exposes its resources
//! to a host scripting caller.
//!
//! - [`heap`] models the C-runtime allocation shim: header-based
//!   allocation, the separate aligned-allocation path, and the page-size
//!   and stub symbols.
//! - [`cstr`] holds the primitive string operations over linear memory.
//! - [`bridge`] turns the engine's structured failures into the single
//!   opaque message that crosses the host boundary.
//! - [`facade`] enforces the open/closed lifecycle of every resource
//!   handle and builds seek directives.
//! - [`config`] accumulates the options of the repository opener and the
//!   file-open builder.
//! - [`random`] assembles host-provided entropy into 32-bit values.

pub mod bridge;
pub mod config;
pub mod cstr;
pub mod facade;
pub mod heap;
pub mod random;
