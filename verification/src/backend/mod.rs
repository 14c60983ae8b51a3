//! What each network stack needs to be told, and what is made of its answers.
pub mod handshake;
pub mod init;
pub mod native;
pub mod native_pion;
pub mod ordering;
pub mod wasm;
