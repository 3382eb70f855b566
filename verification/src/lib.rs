//! The core of a small social-posting service: users register and log in,
//! publish text posts with an optional image, and search the posts.
//!
//! The parts, from the leaves up:
//!
//! - [`error`]: the kinds of failure.
//! - [`model`]: users, posts and the shapes exchanged with clients, each with
//!   its mathematical value.
//! - [`vault`]: what a login makes of the password hasher's verdict. The
//!   hasher itself is the caller's.
//! - [`session`]: session tokens, sealed under the server secret, and the
//!   payload they carry.
//! - [`avatar`]: the profile picture drawn for a new user.
//! - [`store`]: the content store, the tables of users and posts, which hold
//!   the truth; [`store_laws`] states what holds of it whatever it contains.
//! - [`ranking`]: the order of search results.
//! - [`search`]: the search index over post bodies.
//! - [`image_ingest`]: the intake of uploaded images.
//! - [`service`]: the operations of the service, which tie the parts together.
//!
//! # The store and the index
//!
//! The content store is the arbiter of what exists; the search index is
//! derived from it and lives in memory only. A post is entered into the index
//! before its row is written, and the row is written only when the entry has
//! become searchable, so a call that succeeds leaves both and a call that
//! fails leaves the store untouched. An indexing call that breaks off
//! half-way may leave an entry without a row behind, or the index's writer,
//! its commit and its reader at odds. The index then counts as out of order:
//! it answers no search until it has been rebuilt from the store, which is
//! always possible and loses nothing, and which the next publication does
//! before anything else. A query is parsed before the state of the index is
//! looked at, so a malformed query is refused as such in every state. Even an
//! index in order is never trusted with what exists: every result of a
//! search is looked up in the store, what the store does not hold is not
//! shown, and no post is shown twice.
//!
//! # One caller at a time
//!
//! Every operation that changes the store or the index takes it by exclusive
//! reference. Checking that an email is free and entering the user are one
//! step that nothing can come between; so are entering a post into the index
//! and writing its row. Keeping the rows on disk is the caller's part: it
//! hands the rows in when the service starts and writes down what an
//! operation added.

pub mod avatar;
pub mod error;
pub mod image_ingest;
pub mod model;
pub mod ranking;
pub mod search;
pub mod service;
pub mod session;
pub mod store;
pub mod store_laws;
pub mod vault;
