//! The logic of a room watchdog on the M5Stack NanoC6: what it listens to, what it says, when it
//! says it, and what its LEDs show meanwhile.
//!
//! Time, readings and network events come in as plain values; what to do about them goes out the
//! same way. Everything here is proved against its contract, but for the thin wrappers round calls
//! into `embassy_sync`, `embassy_time` and `reqwless`, which say what they take for granted.

pub mod app;
pub mod bot;
pub mod button;
pub mod config;
pub mod env_pro;
pub mod events;
pub mod led;
pub mod telegram;
pub mod text;
pub mod time;
pub mod wifi;
