//! Ambient-light driven backlight control, as a pure library.
//!
//! The crate holds the decisions of an automatic brightness controller and
//! leaves every device access to its caller:
//!
//! * [`mapping`] turns a raw illuminance reading into a backlight level,
//! * [`numeric`] reads and writes the decimal text of device files,
//! * [`config`] holds the user's preference,
//! * [`resolver`] chooses the devices from what probing found,
//! * [`control`] decides, tick by tick, what is written and reported.

pub mod config;
pub mod control;
pub mod mapping;
pub mod numeric;
pub mod resolver;
