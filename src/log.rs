use vstd::prelude::*;

verus! {

/// Severity of a console message.
#[derive(Clone, Copy, Debug, PartialEq, Eq, Structural)]
pub enum LogType {
    INFO,
    WARN,
    ERR,
    SUC,
}

/// The tag printed in front of a message of the given severity.
pub open spec fn prefix_of(t: LogType) -> Seq<char> {
    match t {
        LogType::INFO => "[I]"@,
        LogType::WARN => "[W]"@,
        LogType::ERR => "[E]"@,
        LogType::SUC => "[S]"@,
    }
}

impl LogType {
    /// The tag that starts every console line of this severity.
    pub fn prefix(&self) -> (r: &'static str)
        ensures
            r@ == prefix_of(*self),
    {
        match self {
            LogType::INFO => "[I]",
            LogType::WARN => "[W]",
            LogType::ERR => "[E]",
            LogType::SUC => "[S]",
        }
    }
}

} // verus!
