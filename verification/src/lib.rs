//! A small todo/label backend: entity model, repository contracts, a verified
//! in-memory backend, the decision logic of the database backend, and the
//! handler layer that maps repository outcomes to HTTP status codes.

pub mod db;
pub mod entities;
pub mod handlers;
pub mod laws;
pub mod model;
pub mod memory;
pub mod model_props;
pub mod repository;
pub mod shared;
