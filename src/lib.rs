//! Office room booking: hourly occupancies of shared rooms under a
//! per-room capacity limit, with signed access tokens.
pub mod time;
pub mod models;
pub mod conflict;
pub mod order;
pub mod store;
pub mod api;
pub mod token;
pub mod auth;
pub mod config;
pub mod errors;
pub mod export;
