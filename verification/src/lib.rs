//! A small-buffer-optimized sequence container together with a few
//! verified text utilities: merge sort over strings, a checksum-based
//! identifier validator, and a fizz-buzz formatter.

pub mod bsn;
pub mod config;
pub mod fizzbuzz;
pub mod local_vec;
pub mod sorting;

pub use bsn::Bsn;
pub use config::Config;
pub use config::ConfigFormat;
pub use fizzbuzz::fast_fizz_buzz;
pub use fizzbuzz::fizz_buzz;
pub use local_vec::LocalStorageVec;
pub use local_vec::LocalStorageVecIterator;
pub use sorting::merge;
pub use sorting::merge_sort;
