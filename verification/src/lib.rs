//! Hotkey-configuration model for the swhkd daemon: modes of key bindings,
//! the bidirectional text-format codec, duplicate detection, key recording,
//! and the backup-before-write save protocol.

pub mod codec;
pub mod errors;
pub mod keys;
pub mod model;
pub mod persist;
pub mod recorder;
pub mod roundtrip;
pub mod text;
