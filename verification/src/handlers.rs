//! The decisions of each request handler: from what was read (forms, records,
//! the outcome of each database call) to the next call to make or the page to answer.
pub mod assets;
pub mod auth;
