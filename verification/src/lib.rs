//! A small native-process debugger core: breakpoint bookkeeping, the
//! trap/step-over resume protocol, call-stack walking over the frame-pointer
//! chain, and command parsing, together with a few self-contained data
//! structures (linked lists, a longest-common-subsequence grid, vector
//! utilities) that share the crate.

pub mod backtrace;
pub mod breakpoint;
pub mod command;
pub mod diff;
pub mod generic_list;
pub mod grid;
pub mod inferior;
pub mod linked_list;
pub mod session;
pub mod status;
pub mod symbols;
pub mod text;
pub mod trace;
pub mod warmup;
pub mod word;

pub use inferior::align_addr_to_word;
