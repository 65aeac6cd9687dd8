//! What holds of the library as a whole.

pub mod beginnings;
pub mod calendar;
pub mod claims;
pub mod dialogue;
pub mod gates;
pub mod links;
pub mod lists;
pub mod names;
pub mod pages;
pub mod reading;
pub mod refusals;
pub mod replay;
pub mod rounds;
pub mod showing;
pub mod starting;
pub mod success;
pub mod texts;
pub mod transcripts;
pub mod turns;
pub mod watching;
pub mod working;
