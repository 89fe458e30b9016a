//! A personal media-tracking backend: it records channels, videos, tags and
//! watch sessions, answers filtered and paginated listings over them, and
//! names the files of a local image cache.
//!
//! The entity store is held as five tables in storage order
//! (`database::store`). Ingestion (`routes::watch_history`) and the
//! listings (`routes`) are functions on that store, stated over its view.
//! What needs the network or the disk is left to the caller:
//! ingestion and the image cache proceed in steps, each of which names the
//! next action and takes its outcome.

pub mod api_prelude;
pub mod calendar;
pub mod clock;
pub mod database;
pub mod errors;
pub mod ids;
pub mod image_cache;
pub mod ingestion_laws;
pub mod listing;
pub mod listing_laws;
pub mod routes;
pub mod text;
pub mod utils;
