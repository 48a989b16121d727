//! Core of a personal portfolio page: a typed content schema, a JSON codec
//! for the remote content document, tag-to-presentation mapping, list
//! rendering, a loader state machine, an avatar click interaction, and a
//! small audio library.

pub mod audio_lib;
pub mod avatar;
pub mod content;
pub mod json;
pub mod loader;
pub mod presentation;
pub mod project;
pub mod render;
pub mod schema;
pub mod styles;
