//! The verified core of a small typewriter-style text editor: the document
//! buffer and its file path, the save-path normalisation, and the
//! edge-triggered key tracking that turns held keys into single audio cues.
//! The surrounding GUI, dialogs, file access and sound playback live outside
//! this crate and only feed plain values in and out.

pub mod document;
pub mod editor;
pub mod keys;
pub mod save_path;
