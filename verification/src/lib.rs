//! Fuzzy resolution of a typed media title to a file under a media root.
//!
//! A lookup lists the media files among the walked paths, reduces the query
//! and every file stem to a key of lower-case ASCII letters and digits, rates
//! each candidate by its edit distance to the query, and returns the best one
//! if its rating lies strictly above three tenths.
pub mod catalog;
pub mod normalize;
pub mod paths;
pub mod redirect;
pub mod resolve;
pub mod score;
