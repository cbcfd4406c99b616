//! A social news feed: a store of users, posts, follow edges, precomputed
//! per-user feeds and like counters; the fan-out step that pushes a new post
//! into its author's followers' feeds; and the read path that resolves a
//! feed into hydrated posts.
pub mod auth;
pub mod types;
pub mod store;
pub mod services;
