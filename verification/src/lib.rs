//! A small music-theory library: pitches, intervals, the seven diatonic
//! modes, seven-note keys, and a search that guesses which keys a set of
//! observed pitches could belong to.

pub mod interval;
pub mod key;
pub mod mode;
pub mod note;

pub use interval::Interval;
pub use key::guess_key;
pub use key::Key;
pub use mode::Mode;
pub use mode::UnknownMode;
pub use note::Note;
