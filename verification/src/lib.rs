//! The logic of a band plugin that shows what the use of the DeepSeek platform costs: importing
//! usage exports, building snapshots, deciding what is pushed when, and the plugin's two surfaces.

pub mod backup;
pub mod dates;
pub mod deepseek;
pub mod engine;
pub mod import;
pub mod json;
pub mod laws;
pub mod number;
pub mod order;
pub mod snapshot;
pub mod state;
pub mod tables;
pub mod text;
pub mod ui;
pub mod usage;
