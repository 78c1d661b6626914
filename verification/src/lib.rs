//! Investment portfolio: the rules behind the web application that records
//! a user's assets, values the portfolio and guards the session.
pub mod amount;
pub mod text;
pub mod session;
pub mod ids;
pub mod models;
pub mod portfolio;
pub mod pages;
pub mod handlers;
pub mod config;
pub mod passwords;
