//! Retrieval of commits and pull requests from GitHub, with an on-disk cache
//! that lets a later run ask only for what has changed.

pub mod remote;
