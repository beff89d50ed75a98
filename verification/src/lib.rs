//! A verified subscription bridge for a desktop network applet.
//!
//! The bridge converts low-level "something changed" notifications observed
//! on the system bus into identifier-tagged snapshot events for a GUI
//! subscription runtime. Every decision the bridge makes — when to listen,
//! what to emit, when to latch into a permanently inert error state — is an
//! ordinary function here, with a contract that pins it down. The caller
//! performs the bus I/O between decisions and reports each observed outcome
//! back to the bridge.

pub mod network_manager;
