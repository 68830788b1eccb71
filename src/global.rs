//! State shared by all projects of a user.
pub mod cache;
