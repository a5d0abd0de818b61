//! A growable contiguous container built on an explicit buffer handle, with
//! a consuming and a draining iterator; and a small line-search tool.
pub mod case_insensitive;
pub mod config;
pub mod drain;
pub mod into_iter;
pub mod my_vec;
mod raw_val_iter;
pub mod raw_vec;
pub mod search;

pub use case_insensitive::search_case_insensitive;
pub use config::Config;
pub use drain::Drain;
pub use into_iter::MyIntoIter;
pub use my_vec::MyVec;
pub use raw_vec::RawVec;
pub use search::search;
