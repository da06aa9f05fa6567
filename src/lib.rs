//! Configuration and installer-supervision core of the desktop scraper runner:
//! settings documents with per-field defaults, the API-key credential rules,
//! progress estimation for the browser installer, and the command surface
//! that the GUI host dispatches to.

pub mod text;
pub mod progress;
pub mod settings;
pub mod keychain;
pub mod paths;
pub mod installer;
pub mod commands;
