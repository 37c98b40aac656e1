//! Usage-notch core: the Cursor usage adapter's decoding and decisions, start-at-sign-in
//! registry rules, and the self-update decisions, each with a contract.

pub mod text;
pub mod json;
pub mod token;
pub mod cursor;
pub mod autostart;
pub mod updater_check;
