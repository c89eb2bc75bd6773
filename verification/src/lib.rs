//! Per-hour notes for a day clock: the note records, the keys that address
//! them, the store that holds them, and the editing session that drives it.

pub mod key;
pub mod laws;
pub mod markdown;
pub mod note;
pub mod session;
pub mod store;
