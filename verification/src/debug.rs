//! The switch for diagnostic output.

use vstd::prelude::*;
use crate::text::chars_of;

verus! {

/// The lower-case form of an ASCII letter; any other character as it is.
pub open spec fn ascii_lower(c: char) -> char {
    if 'A' <= c && c <= 'Z' {
        ((c as u8) + 32) as char
    } else {
        c
    }
}

/// Whether `text` reads `true`, in any mix of upper and lower case.
pub open spec fn reads_true(text: Seq<char>) -> bool {
    &&& text.len() == 4
    &&& ascii_lower(text[0]) == 't'
    &&& ascii_lower(text[1]) == 'r'
    &&& ascii_lower(text[2]) == 'u'
    &&& ascii_lower(text[3]) == 'e'
}

/// Whether a value of the environment switches diagnostic output on: `1`, or
/// `true` in any case.
pub open spec fn switches_on(value: Seq<char>) -> bool {
    value == seq!['1'] || reads_true(value)
}

fn lower(c: char) -> (r: char)
    ensures
        r == ascii_lower(c),
{
    if 'A' <= c && c <= 'Z' {
        ((c as u8) + 32) as char
    } else {
        c
    }
}

/// Whether a value of the environment switches diagnostic output on.
pub fn enables_debug(value: &str) -> (r: bool)
    ensures
        r == switches_on(value@),
{
    let v = chars_of(value);
    if v.len() == 1 {
        assert(v@ =~= seq![v@[0]]);
        v[0] == '1'
    } else if v.len() == 4 {
        lower(v[0]) == 't' && lower(v[1]) == 'r' && lower(v[2]) == 'u' && lower(v[3]) == 'e'
    } else {
        false
    }
}

/// The switch for diagnostic output. It starts switched off.
#[derive(Clone, Copy, Debug, PartialEq, Eq, Structural)]
pub struct DebugSwitch {
    pub enabled: bool,
}

/// The switch, switched off.
pub fn debug_off() -> (s: DebugSwitch)
    ensures
        !s.enabled,
{
    DebugSwitch { enabled: false }
}

/// Sets the switch from the environment: on where the variable is set to a
/// value that switches it on, unchanged otherwise.
pub fn init(switch: &mut DebugSwitch, env_value: Option<&str>)
    ensures
        final(switch).enabled == (old(switch).enabled || (env_value matches Some(v) && switches_on(
            v@,
        ))),
{
    match env_value {
        Some(v) => {
            if enables_debug(v) {
                switch.enabled = true;
            }
        },
        None => {},
    }
}

/// Sets the switch.
pub fn set_debug(switch: &mut DebugSwitch, enabled: bool)
    ensures
        final(switch).enabled == enabled,
{
    switch.enabled = enabled;
}

/// Whether diagnostic output is switched on.
pub fn is_debug(switch: &DebugSwitch) -> (r: bool)
    ensures
        r == switch.enabled,
{
    switch.enabled
}

} // verus!
