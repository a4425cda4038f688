//! A portfolio site's content model: polymorphic content blocks, their ordering,
//! the chronological project catalogue and the static-export plan.

pub mod catalog;
pub mod content;
pub mod date;
pub mod deploy;
pub mod export;
pub mod forms;
pub mod lemmas;
pub mod listing;
pub mod ordering;
pub mod site;
pub mod store;
pub mod text;
pub mod upload;
