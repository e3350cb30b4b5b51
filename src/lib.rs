pub mod json;
pub mod text;
pub mod store;
pub mod codec;
pub mod paths;
pub mod layers;
pub mod markdown;
pub mod reconcile;
pub mod entity;
pub mod api;
pub mod laws;
