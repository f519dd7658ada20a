//! Clipboard history: capture normalisation, an ordered history store, and
//! the per-entry presentation rules used when listing the history, and the
//! routing of the server that hosts the front end.

pub mod text;
pub mod entry;
pub mod history;
pub mod capture;
pub mod present;
pub mod web;
