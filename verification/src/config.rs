//! Settings that the service reads once, when it starts.

use crate::text::{is_unsigned, parse_unsigned, unsigned_value};
use vstd::prelude::*;

verus! {

/// The port that the service listens on where none is set.
pub const DEFAULT_PORT: u16 = 8080;

/// The port that a setting asks for: the default where nothing is set, the
/// number that the setting writes where it writes a `u16`, and `None`
/// otherwise.
pub open spec fn port_setting(value: Option<Seq<char>>) -> Option<u16> {
    match value {
        None => Some(DEFAULT_PORT),
        Some(s) => if is_unsigned(s, u16::MAX as nat) {
            Some(unsigned_value(s) as u16)
        } else {
            None
        },
    }
}

/// The port to listen on, given the value of the port setting if it is set.
/// `None` says that the setting is no port, and the service must not start.
pub fn port_from(value: Option<&str>) -> (r: Option<u16>)
    ensures
        r == port_setting(
            match value {
                Some(s) => Some(s@),
                None => None,
            },
        ),
{
    match value {
        None => Some(DEFAULT_PORT),
        Some(s) => match parse_unsigned(s) {
            Some(v) => if v <= u16::MAX as u64 {
                Some(v as u16)
            } else {
                None
            },
            None => None,
        },
    }
}

} // verus!
