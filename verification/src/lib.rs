//! Decoding of the byte stream of a macro-pad, detection of switch state
//! changes, and routing of changed switches to the plugin actions bound to
//! them.
//!
//! The pipeline is `bytes -> frame decoder -> change detector -> router`.
//! Every stage is a total function of its inputs: malformed bytes are absorbed
//! by the decoder, unchanged switches are suppressed by the detector, and a
//! switch without a binding routes to nothing.
//!
//! - `frame`: the wire format and the decoder's state machine.
//! - `switch_info`: switch events, the decoder with its change detector.
//! - `ardeck_data`: the decoder that keeps the raw payload bytes.
//! - `action`: the router.
//! - `settings`: presets, device profiles and the cache of settings files.
//! - `device`: how a connected device is named.

pub mod action;
pub mod ardeck_data;
mod clock;
pub mod device;
pub mod frame;
pub mod settings;
pub mod switch_info;
