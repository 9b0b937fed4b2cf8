//! Fetches large collections from a remote service that hands them out in
//! pages of bounded size: reads how many items there are, plans the page
//! requests that are needed, merges the replies batch by batch, and turns the
//! records of each kind of collection into one canonical form. Sending the
//! requests is left to the caller; every decision is made here.

pub mod analytics;
pub mod config;
pub mod error;
pub mod executor;
pub mod file_handler;
pub mod lastfm_handler;
pub mod normalizer;
pub mod planner;
pub mod text;
pub mod types;
pub mod url_builder;
