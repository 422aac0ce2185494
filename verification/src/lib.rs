//! Verified core of a small Model Context Protocol file server: path and
//! name validation, text editing, project scaffolding plans and the
//! server's session state.

pub mod text;
pub mod edit;
pub mod constants;
pub mod paths;
pub mod messages;
pub mod state;
pub mod scaffold;
pub mod protocol;
pub mod listing;
pub mod replies;
