//! Demultiplexer for the RIFF/WebP image container, with a row-oriented
//! decoding adapter on top of it.
pub mod container;
pub mod frame;
pub mod decoder;
pub mod lemmas;
