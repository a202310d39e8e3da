//! Verified core of the remote project service: git host detection from
//! remote URLs, SQL statement building for the database setup, and the
//! decisions that the HTTP handlers take between their database calls.

pub mod text;
pub mod git_host;
pub mod db;
pub mod routes;
