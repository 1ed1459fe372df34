//! Host inventory parsing, fuzzy search ordering and the interactive state
//! machines of an SSH host picker.

pub mod text;
pub mod external;
pub mod inventory;
pub mod config;
pub mod search;
pub mod hostlist;
pub mod app;
pub mod discovery;
pub mod wizard;

pub mod ui;
pub mod theme;
