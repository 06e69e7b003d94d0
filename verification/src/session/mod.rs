//! The canonical session: document model, validation, edits, store.

pub mod model;
pub mod mutate;
pub mod reconcile;
pub mod relink;
pub mod validate;
pub mod default;
pub mod store;
pub mod edit;
pub mod apply;
pub mod file;
pub mod migration;
pub mod wire;
