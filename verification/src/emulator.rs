//! What the host decides around the machine: how much to log, and what a
//! line typed at the single-step prompt asks for.

use vstd::prelude::*;

verus! {

/// How the emulator was asked to run.
#[derive(Debug)]
pub struct Config {
    pub filename: String,
    pub verbose: bool,
    pub debug: bool,
}

/// How much is logged.
#[derive(Clone, Copy, Debug, PartialEq, Eq)]
pub enum LogLevel {
    Info,
    Debug,
    Trace,
}

/// What a line at the single-step prompt asks for.
#[derive(Clone, Copy, Debug, PartialEq, Eq)]
pub enum Command {
    /// Run the next cycle.
    Step,
    /// Leave.
    Exit,
    /// The line is no command.
    Invalid,
}

/// The level for a verbose run, a single-stepped run or neither: verbose
/// wins over single-stepped.
pub open spec fn level_for(verbose: bool, debug: bool) -> LogLevel {
    if verbose {
        LogLevel::Debug
    } else if debug {
        LogLevel::Trace
    } else {
        LogLevel::Info
    }
}

/// The command that `word` names: `n` is a step, `exit` is the exit.
pub open spec fn command_named(word: Seq<char>) -> Command {
    if word == "n"@ {
        Command::Step
    } else if word == "exit"@ {
        Command::Exit
    } else {
        Command::Invalid
    }
}

/// What `str::trim` leaves of a line.
pub uninterp spec fn trimmed(line: Seq<char>) -> Seq<char>;

/// `str::trim` of the standard library: the line without the white space at
/// its start and at its end. The contract gives the result its name and
/// claims nothing else of it.
#[verifier::external_body]
fn trim(line: &str) -> (rest: &str)
    ensures
        rest@ == trimmed(line@),
{
    line.trim()
}

/// How much to log under `config`.
pub fn log_level(config: &Config) -> (level: LogLevel)
    ensures
        level == level_for(config.verbose, config.debug),
{
    let mut level = LogLevel::Info;
    if config.verbose {
        level = LogLevel::Debug;
    } else if config.debug {
        level = LogLevel::Trace;
    }
    level
}

/// The command that `word`, a line already trimmed, names.
pub fn command_of(word: &str) -> (command: Command)
    ensures
        command == command_named(word@),
{
    let word = word.to_owned();
    if word == "n".to_owned() {
        Command::Step
    } else if word == "exit".to_owned() {
        Command::Exit
    } else {
        Command::Invalid
    }
}

/// The command that a line typed at the prompt names, white space round it
/// aside.
pub fn parse_command(line: &str) -> (command: Command)
    ensures
        command == command_named(trimmed(line@)),
{
    command_of(trim(line))
}

} // verus!
