//! Classification of a day's calendar events and resolution of the meeting
//! link to open, as pure functions of the events and an explicit "now".

pub mod classify;
pub mod command;
pub mod event;
pub mod listing;
pub mod resolve;
pub mod text;
pub mod time;
