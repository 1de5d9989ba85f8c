use vstd::prelude::*;

pub mod text;
pub mod project_changes;
pub mod outline;
pub mod api;
pub mod messages;
pub mod ota;
pub mod import;
pub mod editing;
pub mod workspace;
pub mod commands;
pub mod settings;
pub mod changes;
pub mod session;
pub mod history;
pub mod tree;

verus! {
} // verus!
