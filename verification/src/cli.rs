//! Command-line arguments: a subcommand, or the modules to fetch.

use vstd::prelude::*;
use crate::text::{chars_of, eq_exec};

verus! {

/// What the command line asks for.
#[derive(Debug, PartialEq, Eq)]
pub struct Cli {
    pub command: Option<Command>,
    pub modules: Vec<String>,
}

/// The subcommands.
#[derive(Debug, Clone, Copy, PartialEq, Eq, Structural)]
pub enum Command {
    List,
    Public,
}

/// The subcommand an argument names, if any.
pub open spec fn command_of(arg: Seq<char>) -> Option<Command> {
    if arg == "list"@ {
        Some(Command::List)
    } else if arg == "public"@ {
        Some(Command::Public)
    } else {
        None
    }
}

impl Cli {
    /// Reads the arguments after the program name: a first argument `list`
    /// or `public` is that subcommand (the rest is ignored); otherwise every
    /// argument names a module.
    pub fn parse(args: Vec<String>) -> (r: Self)
        ensures
            args.len() > 0 && command_of(args@[0]@) is Some ==> r.command == command_of(args@[0]@)
                && r.modules@.len() == 0,
            !(args.len() > 0 && command_of(args@[0]@) is Some) ==> r.command is None
                && r.modules@ == args@,
    {
        if args.len() > 0 {
            let first = chars_of(args[0].as_str());
            if eq_exec(&first, &chars_of("list")) {
                return Cli { command: Some(Command::List), modules: Vec::new() };
            }
            if eq_exec(&first, &chars_of("public")) {
                return Cli { command: Some(Command::Public), modules: Vec::new() };
            }
        }
        Cli { command: None, modules: args }
    }
}

} // verus!
