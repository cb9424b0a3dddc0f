//! Host-side core of a plugin-driven video cutter.
//!
//! The host loads two native capability modules — a generator that proposes
//! time ranges to cut and a render that applies them — and talks to them over
//! a C-compatible boundary. This crate holds the verified part of that host:
//! the byte-level codec for C strings, the argument schema bridge between the
//! host and the foreign layout, the cut-list model with its copy-out step, the
//! progress registry that multiplexes callback reports, option validation, and
//! the per-file orchestration decisions. The unverified shell around it does
//! the actual dynamic loading, terminal drawing and file I/O.

pub mod arguments;
pub mod cstr;
pub mod cuts;
pub mod loader;
pub mod options;
pub mod orchestrate;
pub mod progress;
