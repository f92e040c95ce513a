//! The commands of the tool and their shared helpers.
pub mod utils;
pub mod wasm_build;
