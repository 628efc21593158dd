//! The state of the catalogue browser and what the user's actions do to it.

pub mod app;
pub mod database_handlers;
pub mod file_handlers;
pub mod general_handlers;
pub mod image_handlers;
pub mod layout;
pub mod navigation_handlers;
