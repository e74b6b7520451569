//! What the user may set: a preferred maximum luminance.

use crate::numeric::{parse_u32, spec_parse_u32, ParseError};
use vstd::prelude::*;

verus! {

/// The maximum luminance that holds when none is given.
pub const DEFAULT_MAX_LUM: u32 = 140;

/// The configuration of a run.
///
/// The brightness curve takes the preference along without consulting it
/// yet: the levels it yields depend on the sensor and the backlight alone.
#[derive(Clone, Copy, Debug, PartialEq, Eq, Structural)]
pub struct Conf {
    /// The preferred maximum luminance.
    pub max_lum: u32,
}

/// The preference that an argument asks for: the number it denotes, or the
/// default where there is no argument or it denotes no 32-bit number.
pub open spec fn spec_max_lum(arg: Option<Seq<char>>) -> u32 {
    match arg {
        Some(text) => match spec_parse_u32(text) {
            Ok(n) => n,
            Err(_) => DEFAULT_MAX_LUM,
        },
        None => DEFAULT_MAX_LUM,
    }
}

impl Conf {
    /// The configuration for the first argument of the command line, if
    /// there is one. An argument that is no number leaves the default in
    /// place; it is no error.
    pub fn from_arg(arg: Option<&str>) -> (conf: Conf)
        ensures
            conf.max_lum == spec_max_lum(
                match arg {
                    Some(text) => Some(text@),
                    None => None,
                },
            ),
    {
        let mut conf = Conf { max_lum: DEFAULT_MAX_LUM };
        if let Some(text) = arg {
            if let Ok(n) = parse_u32(text) {
                conf.max_lum = n;
            }
        }
        conf
    }
}

impl Default for Conf {
    fn default() -> (conf: Conf)
        ensures
            conf.max_lum == DEFAULT_MAX_LUM,
    {
        Conf { max_lum: DEFAULT_MAX_LUM }
    }
}

} // verus!
