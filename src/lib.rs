pub mod api;
pub mod checksum;
pub mod context;
pub mod hardware;
pub mod inference;
pub mod model_key;
pub mod models;
pub mod registry;
pub mod residency;
pub mod session;
pub mod text;
pub mod tokenizer;
