//! Kernel symbol resolution and probe-target classification.
//!
//! Given a name or an address, the library decides whether it denotes a
//! traceable kernel event (a tracepoint) or a traceable function, and derives
//! the name forms that attaching a probe and looking up its argument layout
//! need.
//!
//! - [`symbol`]: symbols, their names, and how a name, an address or a
//!   pattern resolves to them.
//! - [`inspect`]: what is known of the running kernel, and the queries on it.
//! - [`model`]: the mathematical content of that knowledge, which the
//!   contracts speak of.
//! - [`ct`]: whether the kernel can feed the connection-tracking collector.
//! - [`glob`], [`text`], [`seqs`]: patterns, characters and searches.

pub mod ct;
pub mod glob;
pub mod inspect;
pub mod model;
pub mod seqs;
pub mod symbol;
pub mod text;
