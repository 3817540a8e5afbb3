//! Sidefeed: a small aggregation node that normalises RSS, Atom, JSON Feed and
//! ActivityPub documents into canonical items, projects them into named feeds
//! and exchanges cached public items with signed, explicitly trusted peers.

pub mod ai;
pub mod api;
pub mod config;
pub mod db;
pub mod error;
pub mod federation;
pub mod ingest;
pub mod errors;
pub mod json;
pub mod model;
pub mod models;
pub mod store;
pub mod text;
pub mod web;
