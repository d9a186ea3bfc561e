//! The playlist: the stored queue table and the rules that govern it.
pub mod table;
pub mod rules;
pub mod laws;
pub mod views;
