//! The tenhou/6 log: a JSON document that holds, round by round, what each
//! seat took and what each seat gave.

pub mod log;
pub mod play;
pub mod scheme;

pub use log::{Discard, EndStatus, HoraDetail, Kyoku, Log, Seat, Take};
