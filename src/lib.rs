//! Runtime coordination core of a script-driven desktop overlay: the signal
//! table and its dispatch, the timer table and its delivery rules, the event
//! loop's decisions, the capability names exposed to the script, and the
//! configuration paths.

pub mod bindings;
pub mod config;
pub mod events;
pub mod signals;
pub mod sys;
pub mod timeout;

pub use config::Config;
pub use events::PolymerWindowEvent;
