//! Current local time in a set of named time zones, sorted by UTC offset and
//! rendered as aligned rows for an interactive menu.

pub mod error;
pub mod entry;
pub mod clock;
pub mod oracle;
pub mod config;
pub mod resolve;
pub mod order;
pub mod render;
pub mod selector;
pub mod pipeline;
