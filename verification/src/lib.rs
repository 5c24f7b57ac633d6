//! A bridge that exposes host-owned variant records to an embedded scripting
//! runtime through opaque handles, while the host keeps ownership.
//!
//! The bridge is a handle table: every value a script holds is an index into
//! it, never a pointer into host memory. A stale index is detected and
//! reported, it cannot corrupt memory.
//!
//! - [`record`], [`info`], [`value`]: the record and the values that cross
//!   the boundary.
//! - [`descriptor`], [`tables`]: which names a script may use on each type.
//! - [`cell`], [`model`]: the handle table, its counts and its invariant.
//! - [`access`], [`dispatch`], [`bridge`]: a bridged call from lookup to
//!   release.
//! - [`error`]: failures and the form in which a script sees them.
//! - [`machine`], [`laws`]: what holds of every sequence of operations.

pub mod text;
pub mod value;
pub mod error;
pub mod info;
pub mod record;
pub mod descriptor;
pub mod tables;
pub mod cell;
pub mod model;
pub mod access;
pub mod dispatch;
pub mod machine;
pub mod bridge;
pub mod laws;
