//! What a small greeting server decides: where it listens and what it says.

use crate::numeral::{chars_of, read_u16, written_u16};
use vstd::prelude::*;

verus! {

/// The port used where none is set.
pub const DEFAULT_PORT: u16 = 3000;

/// The port to listen on: `DEFAULT_PORT` where nothing is set, else the
/// number that the setting writes, and none where it writes no `u16`.
pub fn port_from(setting: Option<&str>) -> (port: Option<u16>)
    ensures
        port == (match setting {
            Some(text) => written_u16(text@),
            None => Some(DEFAULT_PORT),
        }),
{
    match setting {
        Some(text) => {
            let chars = chars_of(text);
            read_u16(chars.as_slice())
        },
        None => Some(DEFAULT_PORT),
    }
}

/// The body of the answer to every request for the root path.
pub fn greeting() -> (body: &'static str)
    ensures
        body@ == "Hello World"@,
{
    "Hello World"
}

} // verus!
