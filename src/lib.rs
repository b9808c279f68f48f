//! The core of a terminal text viewer: buffers of text held in ropes, the
//! session's buffers and windows, the drawing of a buffer into a bordered
//! frame, and the key handling that ends a session.

pub mod buffer;
pub mod editor;
pub mod input;
pub mod render;
pub mod text;
