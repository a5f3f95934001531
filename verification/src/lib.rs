//! The verified core of a local music player: container parsing, the frame
//! pipeline's bookkeeping, the playback transport and the play queue.

pub mod audio;
pub mod filter;
pub mod format;
pub mod library;
pub mod pattern;
pub mod player;
pub mod repl;
pub mod stream;
