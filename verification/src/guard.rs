//! The commands that the guard in the system service understands.
use crate::text::{decimal, decimal_text};
use vstd::prelude::*;
use vstd::string::*;

verus! {

/// A command to the guard.
pub enum GuardCommand {
    /// The configuration may be kept running again.
    Start(Seq<char>),
    /// The configuration was stopped by hand.
    Stop(Seq<char>),
    /// The configuration runs in the process of this id.
    Track(Seq<char>, u32),
    /// No configuration is stopped by hand any more.
    Clear,
}

impl GuardCommand {
    /// The text that is sent.
    pub open spec fn text(self) -> Seq<char> {
        match self {
            GuardCommand::Start(name) => "START:"@ + name,
            GuardCommand::Stop(name) => "STOP:"@ + name,
            GuardCommand::Track(name, pid) => "TRACK:"@ + name + ":"@ + decimal(pid as nat),
            GuardCommand::Clear => "CLEAR"@,
        }
    }
}

/// The command that lets a configuration be kept running again.
pub fn start_command(name: &str) -> (res: String)
    ensures
        res@ == GuardCommand::Start(name@).text(),
{
    "START:".to_string().concat(name)
}

/// The command that says that a configuration was stopped by hand.
pub fn stop_command(name: &str) -> (res: String)
    ensures
        res@ == GuardCommand::Stop(name@).text(),
{
    "STOP:".to_string().concat(name)
}

/// The command that says in which process a configuration runs.
pub fn track_command(name: &str, pid: u32) -> (res: String)
    ensures
        res@ == GuardCommand::Track(name@, pid).text(),
{
    "TRACK:".to_string().concat(name).concat(":").concat(decimal_text(pid as u128).as_str())
}

/// The command that says that no configuration is stopped by hand any more.
pub fn clear_command() -> (res: String)
    ensures
        res@ == GuardCommand::Clear.text(),
{
    "CLEAR".to_string()
}

} // verus!
