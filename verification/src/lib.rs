//! Arranges the displays of a graphics session by their identity.
//!
//! A display is known by the manufacturer, product and serial number in its
//! identity block, not by the connector it hangs on. A configuration lists
//! groups of displays, the most wanted first. A run finds the first group of
//! which every display is connected, lays its displays out side by side from
//! left to right, each in its best mode, switches the other displays off and
//! sets the size of the screen to fit.
//!
//! The library decides; it does not talk to the server. A program reads the
//! screen, hands it to a step of the run, carries out the commands that the
//! step answers with, and reads the screen again.
//!
//! - `monitor`: a display and its identity, and how it is enabled and disabled
//! - `mode`: timing modes and the choice of the best one
//! - `crtc`: CRTCs, commands, and when a CRTC has to be written
//! - `connection`: the screen as it was read, free CRTCs and the screen size
//! - `reconcile`: the run as a state machine
//! - `errors`: the failures
//! - `search`, `text`: what the others share

pub mod connection;
pub mod crtc;
pub mod errors;
pub mod mode;
pub mod monitor;
pub mod reconcile;
pub mod search;
pub mod text;
