pub mod access;
pub mod config;
pub mod cors;
pub mod models;
pub mod pattern;
pub mod position;
pub mod reporter;
pub mod result;
pub mod routes;
pub mod scanners;
pub mod utils;
