//! Remote data: what is fetched, how it is asked for, and how it is cached.

pub mod cache;
pub mod cache_laws;
pub mod call_laws;
pub mod clock;
pub mod fetch;
pub mod github;
pub mod laws;
pub mod listing;
pub mod paths;
pub mod runs;
pub mod save;
pub mod step_laws;
pub mod sync;
pub mod text;
pub mod text_laws;
pub mod text_map;
pub mod url_laws;
