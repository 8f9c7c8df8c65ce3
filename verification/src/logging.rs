//! Log levels by name.

use vstd::prelude::*;
use vstd::string::*;

verus! {

#[derive(Debug, Clone, Copy, PartialEq, Eq, Structural)]
pub enum TraceLevel {
    Trace,
    Debug,
    Info,
    Warn,
    Error,
}

/// The upper-case form of a text, as `str::to_uppercase` gives it.
pub uninterp spec fn uppercase_of(s: Seq<char>) -> Seq<char>;

/// Trusted: calls `str::to_uppercase`, whose result depends on the text
/// alone; the contract gives that result its name and claims no more.
#[verifier::external_body]
fn to_upper(s: &str) -> (r: String)
    ensures
        r@ == uppercase_of(s@),
{
    s.to_uppercase()
}

/// The level that an upper-case name stands for.
pub open spec fn level_of(name: Seq<char>) -> Option<TraceLevel> {
    if name == "TRACE"@ {
        Some(TraceLevel::Trace)
    } else if name == "DEBUG"@ {
        Some(TraceLevel::Debug)
    } else if name == "INFO"@ {
        Some(TraceLevel::Info)
    } else if name == "WARN"@ {
        Some(TraceLevel::Warn)
    } else if name == "ERROR"@ {
        Some(TraceLevel::Error)
    } else {
        None
    }
}

/// The level of a name that is already in upper case.
pub fn level_of_name(name: &String) -> (r: Option<TraceLevel>)
    ensures
        r == level_of(name@),
{
    if *name == String::from_str("TRACE") {
        Some(TraceLevel::Trace)
    } else if *name == String::from_str("DEBUG") {
        Some(TraceLevel::Debug)
    } else if *name == String::from_str("INFO") {
        Some(TraceLevel::Info)
    } else if *name == String::from_str("WARN") {
        Some(TraceLevel::Warn)
    } else if *name == String::from_str("ERROR") {
        Some(TraceLevel::Error)
    } else {
        None
    }
}

/// The level that a name stands for, in whatever case it is written.
pub fn get_trace_level(input: &str) -> (r: Option<TraceLevel>)
    ensures
        r == level_of(uppercase_of(input@)),
{
    let upper = to_upper(input);
    level_of_name(&upper)
}

} // verus!
