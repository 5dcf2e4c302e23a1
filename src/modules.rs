//! The content modules that the display cycles through: their names in the
//! display order, and the icon bits that each lights.
use vstd::prelude::*;
use crate::text::{chars_of, same_text, string_of};

verus! {

/// Icon bit of the clock.
pub const CLOCK_ICON: u8 = 1;

/// Icon bit of the medal, lit while a price is flat.
pub const MEDAL_ICON: u8 = 2;

/// Icon bit of the up arrow.
pub const UP_ICON: u8 = 4;

/// Icon bit of the down arrow.
pub const DOWN_ICON: u8 = 8;

/// One content module of the display order.
#[derive(Clone, Copy, Debug, PartialEq, Eq, Structural)]
pub enum Module {
    Date,
    Time,
    TimeBlink,
    Uptime,
    Cpu,
    Mem,
    Load,
    Temp,
    Ip,
    NetspeedDown,
    NetspeedUp,
    Dev,
    Banner,
    HttpCustom,
    TrafficDown,
    TrafficUp,
    Weather,
    Stock,
}

/// The module that a name of the display order stands for.
pub open spec fn module_of(s: Seq<char>) -> Option<Module> {
    if s == seq!['d', 'a', 't', 'e'] {
        Some(Module::Date)
    } else if s == seq!['t', 'i', 'm', 'e'] {
        Some(Module::Time)
    } else if s == seq!['t', 'i', 'm', 'e', 'B', 'l', 'i', 'n', 'k'] {
        Some(Module::TimeBlink)
    } else if s == seq!['u', 'p', 't', 'i', 'm', 'e'] {
        Some(Module::Uptime)
    } else if s == seq!['c', 'p', 'u'] {
        Some(Module::Cpu)
    } else if s == seq!['m', 'e', 'm'] {
        Some(Module::Mem)
    } else if s == seq!['l', 'o', 'a', 'd'] {
        Some(Module::Load)
    } else if s == seq!['t', 'e', 'm', 'p'] {
        Some(Module::Temp)
    } else if s == seq!['i', 'p'] {
        Some(Module::Ip)
    } else if s == seq!['n', 'e', 't', 's', 'p', 'e', 'e', 'd', '_', 'd', 'o', 'w', 'n'] {
        Some(Module::NetspeedDown)
    } else if s == seq!['n', 'e', 't', 's', 'p', 'e', 'e', 'd', '_', 'u', 'p'] {
        Some(Module::NetspeedUp)
    } else if s == seq!['d', 'e', 'v'] {
        Some(Module::Dev)
    } else if s == seq!['b', 'a', 'n', 'n', 'e', 'r'] {
        Some(Module::Banner)
    } else if s == seq!['h', 't', 't', 'p', '_', 'c', 'u', 's', 't', 'o', 'm'] {
        Some(Module::HttpCustom)
    } else if s == seq!['t', 'r', 'a', 'f', 'f', 'i', 'c', '_', 'd', 'o', 'w', 'n'] {
        Some(Module::TrafficDown)
    } else if s == seq!['t', 'r', 'a', 'f', 'f', 'i', 'c', '_', 'u', 'p'] {
        Some(Module::TrafficUp)
    } else if s == seq!['w', 'e', 'a', 't', 'h', 'e', 'r'] {
        Some(Module::Weather)
    } else if s == seq!['s', 't', 'o', 'c', 'k'] {
        Some(Module::Stock)
    } else {
        None
    }
}

impl Module {
    /// The module named `name`, if any.
    pub fn parse(name: &str) -> (r: Option<Module>)
        ensures
            r == module_of(name@),
    {
        let s = chars_of(name);
        if same_text(&s, &vec!['d', 'a', 't', 'e']) {
            Some(Module::Date)
        } else if same_text(&s, &vec!['t', 'i', 'm', 'e']) {
            Some(Module::Time)
        } else if same_text(&s, &vec!['t', 'i', 'm', 'e', 'B', 'l', 'i', 'n', 'k']) {
            Some(Module::TimeBlink)
        } else if same_text(&s, &vec!['u', 'p', 't', 'i', 'm', 'e']) {
            Some(Module::Uptime)
        } else if same_text(&s, &vec!['c', 'p', 'u']) {
            Some(Module::Cpu)
        } else if same_text(&s, &vec!['m', 'e', 'm']) {
            Some(Module::Mem)
        } else if same_text(&s, &vec!['l', 'o', 'a', 'd']) {
            Some(Module::Load)
        } else if same_text(&s, &vec!['t', 'e', 'm', 'p']) {
            Some(Module::Temp)
        } else if same_text(&s, &vec!['i', 'p']) {
            Some(Module::Ip)
        } else if same_text(&s, &vec!['n', 'e', 't', 's', 'p', 'e', 'e', 'd', '_', 'd', 'o', 'w', 'n']) {
            Some(Module::NetspeedDown)
        } else if same_text(&s, &vec!['n', 'e', 't', 's', 'p', 'e', 'e', 'd', '_', 'u', 'p']) {
            Some(Module::NetspeedUp)
        } else if same_text(&s, &vec!['d', 'e', 'v']) {
            Some(Module::Dev)
        } else if same_text(&s, &vec!['b', 'a', 'n', 'n', 'e', 'r']) {
            Some(Module::Banner)
        } else if same_text(&s, &vec!['h', 't', 't', 'p', '_', 'c', 'u', 's', 't', 'o', 'm']) {
            Some(Module::HttpCustom)
        } else if same_text(&s, &vec!['t', 'r', 'a', 'f', 'f', 'i', 'c', '_', 'd', 'o', 'w', 'n']) {
            Some(Module::TrafficDown)
        } else if same_text(&s, &vec!['t', 'r', 'a', 'f', 'f', 'i', 'c', '_', 'u', 'p']) {
            Some(Module::TrafficUp)
        } else if same_text(&s, &vec!['w', 'e', 'a', 't', 'h', 'e', 'r']) {
            Some(Module::Weather)
        } else if same_text(&s, &vec!['s', 't', 'o', 'c', 'k']) {
            Some(Module::Stock)
        } else {
            None
        }
    }

    /// The icon bits that the module lights of itself: the clock for the
    /// clock modules, the down arrow for download, the up arrow for upload.
    pub fn icon_flags(&self) -> (r: u8)
        ensures
            r == match *self {
                Module::Time | Module::TimeBlink => CLOCK_ICON,
                Module::NetspeedDown | Module::TrafficDown => DOWN_ICON,
                Module::NetspeedUp | Module::TrafficUp => UP_ICON,
                _ => 0,
            },
    {
        match *self {
            Module::Time | Module::TimeBlink => CLOCK_ICON,
            Module::NetspeedDown | Module::TrafficDown => DOWN_ICON,
            Module::NetspeedUp | Module::TrafficUp => UP_ICON,
            _ => 0,
        }
    }
}

/// The banner text: the custom text, or `Welcome` when there is none.
pub fn banner_text(custom_text: &str) -> (r: String)
    ensures
        custom_text@.len() > 0 ==> r@ == custom_text@,
        custom_text@.len() == 0 ==> r@ == seq!['W', 'e', 'l', 'c', 'o', 'm', 'e'],
{
    let cs = chars_of(custom_text);
    if cs.len() > 0 {
        string_of(&cs)
    } else {
        string_of(&vec!['W', 'e', 'l', 'c', 'o', 'm', 'e'])
    }
}

} // verus!
