//! A typing-speed trainer: a pool of words, a shuffled challenge drawn from it,
//! and the session that scores how fast the challenge is typed.

pub mod pace;
pub mod session;
pub mod shuffle;
pub mod text;

pub use pace::Pace;
pub use session::{Emphasis, SessionState, WordsPerMinute};
