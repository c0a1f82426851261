//! An in-memory catalog of systems, emulators, software titles, file sets and
//! releases, with a key/value settings store, whose operations keep the
//! catalog's referential integrity and write release graphs all or nothing.

pub mod error;
pub mod file_output;
pub mod models;
pub mod release_form;
pub mod repository;
pub mod settings;
pub mod tabs;
pub mod view_model_service;
pub mod view_models;
pub mod widgets;
