//! Log-filter levels chosen by name. A driver hands the user's filter word to
//! the library and gets back the level it denotes, compared without regard to
//! ASCII case; the levels mirror the filters of the logging facade a driver
//! wires them into.

use vstd::prelude::*;
use vstd::string::StringSliceAdditionalSpecFns;

verus! {

/// A logging verbosity filter, from silence to full tracing.
#[derive(Clone, Copy, Debug, PartialEq, Eq, Structural)]
pub enum LevelFilter {
    Off,
    Error,
    Warn,
    Info,
    Debug,
    Trace,
}

/// `b` with an ASCII capital letter folded to its small form.
pub open spec fn ascii_lower(b: u8) -> u8 {
    if 65 <= b && b <= 90 {
        (b + 32) as u8
    } else {
        b
    }
}

/// The table from filter words to levels: each level by its full lower-case
/// name or its first letter, in any ASCII case; anything else names no level.
pub open spec fn spec_level_of(s: Seq<u8>) -> Option<LevelFilter> {
    if s.len() == 1 {
        let c = ascii_lower(s[0]);
        if c == 111 {
            Some(LevelFilter::Off)
        } else if c == 101 {
            Some(LevelFilter::Error)
        } else if c == 119 {
            Some(LevelFilter::Warn)
        } else if c == 105 {
            Some(LevelFilter::Info)
        } else if c == 100 {
            Some(LevelFilter::Debug)
        } else if c == 116 {
            Some(LevelFilter::Trace)
        } else {
            None
        }
    } else if s.len() == 3 && ascii_lower(s[0]) == 111 && ascii_lower(s[1]) == 102
        && ascii_lower(s[2]) == 102 {
        Some(LevelFilter::Off)
    } else if s.len() == 4 && ascii_lower(s[0]) == 119 && ascii_lower(s[1]) == 97
        && ascii_lower(s[2]) == 114 && ascii_lower(s[3]) == 110 {
        Some(LevelFilter::Warn)
    } else if s.len() == 4 && ascii_lower(s[0]) == 105 && ascii_lower(s[1]) == 110
        && ascii_lower(s[2]) == 102 && ascii_lower(s[3]) == 111 {
        Some(LevelFilter::Info)
    } else if s.len() == 5 && ascii_lower(s[0]) == 101 && ascii_lower(s[1]) == 114
        && ascii_lower(s[2]) == 114 && ascii_lower(s[3]) == 111 && ascii_lower(s[4]) == 114 {
        Some(LevelFilter::Error)
    } else if s.len() == 5 && ascii_lower(s[0]) == 100 && ascii_lower(s[1]) == 101
        && ascii_lower(s[2]) == 98 && ascii_lower(s[3]) == 117 && ascii_lower(s[4]) == 103 {
        Some(LevelFilter::Debug)
    } else if s.len() == 5 && ascii_lower(s[0]) == 116 && ascii_lower(s[1]) == 114
        && ascii_lower(s[2]) == 97 && ascii_lower(s[3]) == 99 && ascii_lower(s[4]) == 101 {
        Some(LevelFilter::Trace)
    } else {
        None
    }
}

/// `b` folded to lower case when it is an ASCII capital letter.
fn to_lower(b: u8) -> (r: u8)
    ensures
        r == ascii_lower(b),
{
    if 65 <= b && b <= 90 {
        b + 32
    } else {
        b
    }
}

/// The level that the filter word `s` names, if any.
pub fn convert_log_level(s: &str) -> (r: Option<LevelFilter>)
    ensures
        r == spec_level_of(s.spec_bytes()),
{
    let b = s.as_bytes();
    let n = b.len();
    if n == 1 {
        let c = to_lower(b[0]);
        if c == 111 {
            Some(LevelFilter::Off)
        } else if c == 101 {
            Some(LevelFilter::Error)
        } else if c == 119 {
            Some(LevelFilter::Warn)
        } else if c == 105 {
            Some(LevelFilter::Info)
        } else if c == 100 {
            Some(LevelFilter::Debug)
        } else if c == 116 {
            Some(LevelFilter::Trace)
        } else {
            None
        }
    } else if n == 3 && to_lower(b[0]) == 111 && to_lower(b[1]) == 102 && to_lower(b[2]) == 102 {
        Some(LevelFilter::Off)
    } else if n == 4 && to_lower(b[0]) == 119 && to_lower(b[1]) == 97 && to_lower(b[2]) == 114
        && to_lower(b[3]) == 110 {
        Some(LevelFilter::Warn)
    } else if n == 4 && to_lower(b[0]) == 105 && to_lower(b[1]) == 110 && to_lower(b[2]) == 102
        && to_lower(b[3]) == 111 {
        Some(LevelFilter::Info)
    } else if n == 5 && to_lower(b[0]) == 101 && to_lower(b[1]) == 114 && to_lower(b[2]) == 114
        && to_lower(b[3]) == 111 && to_lower(b[4]) == 114 {
        Some(LevelFilter::Error)
    } else if n == 5 && to_lower(b[0]) == 100 && to_lower(b[1]) == 101 && to_lower(b[2]) == 98
        && to_lower(b[3]) == 117 && to_lower(b[4]) == 103 {
        Some(LevelFilter::Debug)
    } else if n == 5 && to_lower(b[0]) == 116 && to_lower(b[1]) == 114 && to_lower(b[2]) == 97
        && to_lower(b[3]) == 99 && to_lower(b[4]) == 101 {
        Some(LevelFilter::Trace)
    } else {
        None
    }
}

} // verus!
