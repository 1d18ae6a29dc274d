//! A bridge library for a screen-mirroring frame stream: it decodes the
//! length-prefixed binary frames that a companion sends and turns each into
//! one line of JSON for a parent process.
pub mod event;
pub mod session;
pub mod wire;
