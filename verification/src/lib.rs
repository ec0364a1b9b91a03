//! The logic of the pedalboard bridge, which connects a MIDI controller, its web tools and
//! mod-host, an LV2 plugin host.
//!
//! Everything here computes: requests to answer, messages to send, steps to perform. The program
//! around it does the input and output, and reports back what happened.
pub mod audio;
pub mod deploy;
pub mod flash;
pub mod global_config;
pub mod http;
pub mod jack_midi;
pub mod keyed;
pub mod midi;
pub mod mode;
pub mod modhost;
pub mod presets;
pub mod property_exchange;
pub mod rig;
pub mod server;
pub mod stub;
pub mod text;
pub mod tone;
pub mod uploads;
pub mod version;
pub mod websocket;

pub use modhost::{Error, ModHostClient, Response};
