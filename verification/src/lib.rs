//! Picks the release asset that best fits a Linux x86-64 machine and plans its
//! installation into a directory of executables.

pub mod asset;
pub mod install;
pub mod lookup;
pub mod order;
pub mod pipeline;
pub mod rank;
pub mod select;
pub mod text;
