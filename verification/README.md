# git-cliff-core: GitHub remote

Retrieval of commits and pull requests from GitHub, with an on-disk cache that
lets a later run ask only for what has changed. The library is written and
proved in Verus.

- `src/remote/github.rs`: commits, pull requests and the URLs of the REST API
- `src/remote/cache.rs`: the cache; `text_map.rs` and `listing.rs`: its maps
- `src/remote/fetch.rs`: fetching page by page; `runs.rs`: whole runs
- `src/remote/sync.rs`: bringing a cache up to date; `save.rs`: saving it
- `src/remote/laws.rs`: what holds of the cache, its updates and the URLs
- `src/remote/clock.rs`, `paths.rs`, `text.rs`: instants, paths and text
- `app/`: the HTTP client, JSON and the cache file around the library

What is taken on trust is the behaviour of `time`, `urlencoding` and
`std::path`, in the items of `clock.rs`, `text.rs` and `paths.rs` that call them.
