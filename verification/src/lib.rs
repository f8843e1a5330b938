//! Verified core of a small appliance UI: a 128x64 monochrome framebuffer
//! with its page-addressed transfer protocol, edge-triggered input state
//! machines for buttons and a joystick, cursor/scroll navigation for
//! scrollable lists, a cyclic tab selector, and the per-tick state update
//! that folds collaborator status events into the UI state and decides the
//! outbound requests. Hardware access, process control and networking live
//! outside the library and talk to it through plain values.

pub mod bt;
pub mod buttons;
pub mod display;
pub mod joystick;
pub mod marquee;
pub mod mpv;
pub mod nav;
pub mod osparse;
pub mod remote;
pub mod state;
pub mod text;
