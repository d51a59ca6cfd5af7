//! Plugin discovery for a host that embeds a Python runtime.
//!
//! A plugin is a directory under the plugin root with a `main.py` that
//! defines `atorrlinker_advertise`. That function reports the plugin's
//! callable functions, each with the types of its arguments and of its
//! result. This crate models those types, reads the reports, and keeps the
//! plugins that loaded in a registry that is looked up by name.
//!
//! Nothing here touches the file system or the runtime: the host reads the
//! directory, performs the steps that a [`loader::Loader`] asks for, and
//! hands over what it found.

pub mod annotations;
pub mod config;
pub mod errors;
pub mod json;
pub mod loader;
pub mod names;
pub mod paths;
pub mod plugin;
pub mod registry;
pub mod signature;
pub mod text;
pub mod types;
