//! CosmicSnip's display-free core: the annotation model with its undo
//! history, the editor's key and pointer decisions, the portal's URI answers,
//! the preferences file's structure and the PNG limits of the snip.

pub mod config;

pub mod annotation;

pub mod text;

pub mod capture;

pub mod render;

pub mod editor;

pub mod prefs;
