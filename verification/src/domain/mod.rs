//! Project domain model: inputs, scenes, mixing units, outputs, multiviews
//! and the project profile. No GPU, GUI, or vendor SDK types.

pub mod audio;
pub mod error;
pub mod ids;
pub mod ieee;
pub mod input;
pub mod key_order;
pub mod mixing;
pub mod output;
pub mod profile;
pub mod routing;
pub mod scene;
pub mod project;
pub mod graph;
pub mod check;
