//! Request-body classification, ASCII-art rendering and multipart ingestion
//! for a diagnostic HTTP echo service.
pub mod ascii;
pub mod base64_model;
pub mod body;
pub mod echo;
pub mod params;
pub mod upload;
