//! Verified core of the Enigma assistant: text handling, Brain planning and
//! rollback decisions, provider bookkeeping, path resolution, file-write
//! planning, Spotify response formatting and terminal line styling.

pub mod text;
pub mod paths;
pub mod table;
pub mod model;
pub mod brain;
pub mod json;
pub mod sport;
pub mod cmd_executor;
pub mod router;
pub mod steps;
pub mod hands;
pub mod operations;
pub mod styles;
pub mod search_model;
