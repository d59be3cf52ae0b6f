//! File naming for a dataset made of a main file, a backup file and numbered
//! temporary files, with a verified probe for a fresh temporary name.

pub mod decimal;
pub mod naming;
pub mod probe;
