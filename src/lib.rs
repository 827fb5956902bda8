//! A local forward proxy's routing core: PAC result parsing, route resolution
//! with a cached script store, network-context detection, credential lookup
//! with suffix descent, connection tracking and upstream dial planning.

pub mod cache;
pub mod credentials;
pub mod detect;
pub mod error;
pub mod models;
pub mod pac;
pub mod resolver;
pub mod route;
pub mod service;
pub mod text;
pub mod tracker;
pub mod url;
