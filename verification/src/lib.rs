//! User-side core of a kernel tracing framework: a metadata filter compiler
//! that lowers `sk_buff.member...` filter expressions to load/compare
//! programs executed in the kernel, the binary layout of those programs,
//! the raw-event section framing shared with the in-kernel producers, and
//! inspection of USDT probe notes in ELF binaries.

pub mod bindings;
pub mod filter;
pub mod meta;
pub mod proc;
pub mod raw_event;
pub mod scan;
pub mod typedb;
pub mod usdt;
