//! A multi-tenant headless-content engine: tenants ("services") define
//! content schemas (content types with typed fields) and store
//! schema-validated JSON documents, gated by an API-key/permission check
//! for content routes and a cookie-session check for admin routes.

pub mod access;
pub mod account;
pub mod content;
pub mod json;
pub mod keygen;
pub mod schema;
pub mod service;
pub mod store;
pub mod validate;
