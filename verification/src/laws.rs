//! What the library is for, said in plain terms: each law takes what a function promises of
//! its result and concludes what that result is, field by field and number by number.
pub mod keeping;
pub mod outcomes;
pub mod planning;
pub mod requests;
pub mod running;
pub mod serving;
pub mod stores;
