//! Batch text recognition over a directory of images: selecting image files,
//! cleaning their base64 payloads, grouping them into batches, building the
//! text-detection requests and collecting the recognised text per image.
pub mod batch;
pub mod cli;
pub mod discovery;
pub mod encoding;
pub mod schema;
pub mod session;
pub mod vision;
