//! Decision logic of two companion daemons for the Xiaomi Pad 5: a
//! battery-threshold charging controller for the LN8000 charger chip, and a
//! power-button / lid-switch screen toggle. The daemons' I/O lives outside
//! this library, which holds their rules: parsing, thresholds and register
//! bits, command plans, device discovery and the screen daemon's state
//! transitions, each with a proved contract.
pub mod text;
pub mod args;
pub mod charge;
pub mod command;
pub mod session;
pub mod input;
pub mod display;
pub mod screen;
