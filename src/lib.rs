//! Process supervision that survives the supervisor's death, and the small
//! pieces of process introspection around it.
pub mod env;
pub mod ext;
pub mod file;
pub mod proc;
pub mod process;
pub mod subtree;
pub mod valgrind;

pub use ext::{Hex, ToHex};
