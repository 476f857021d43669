//! The command line, from what the argument parser matched.
use crate::text::{opt_string_view, opt_view, owned, str_eq};
use vstd::prelude::*;

verus! {

/// What `cava-bg` was asked to do.
#[allow(non_camel_case_types)]
pub enum Command {
    On,
    Off,
    Kill,
    Restart,
    Status,
    Outputs,
    OutputOn { output: String },
    OutputOff { output: String },
    Gui,
    __Run,
    __Supervisor,
}

pub struct Cli {
    pub command: Option<Command>,
    pub debug: bool,
    pub output: Option<String>,
    pub config: Option<String>,
}

/// The subcommands that map to a `Command`.
pub open spec fn known_subcommand(name: Seq<char>) -> bool {
    name == "on"@ || name == "off"@ || name == "kill"@ || name == "restart"@ || name == "status"@
        || name == "outputs"@ || name == "output-on"@ || name == "output-off"@ || name == "gui"@
        || name == "__run"@ || name == "__supervisor"@
}

/// The subcommands whose `--output` argument is required.
pub open spec fn takes_output(name: Seq<char>) -> bool {
    name == "output-on"@ || name == "output-off"@
}

/// `c` is the command for subcommand `name` with subcommand argument `arg`.
pub open spec fn command_for(c: Command, name: Seq<char>, arg: Seq<char>) -> bool {
    if name == "on"@ {
        c is On
    } else if name == "off"@ {
        c is Off
    } else if name == "kill"@ {
        c is Kill
    } else if name == "restart"@ {
        c is Restart
    } else if name == "status"@ {
        c is Status
    } else if name == "outputs"@ {
        c is Outputs
    } else if name == "output-on"@ {
        c matches Command::OutputOn { output } && output@ == arg
    } else if name == "output-off"@ {
        c matches Command::OutputOff { output } && output@ == arg
    } else if name == "gui"@ {
        c is Gui
    } else if name == "__run"@ {
        c is __Run
    } else {
        c is __Supervisor
    }
}

/// The subcommand's argument, empty when there is none.
pub open spec fn arg_view(o: Option<&str>) -> Seq<char> {
    match o {
        Some(s) => s@,
        None => Seq::empty(),
    }
}

fn opt_owned(o: Option<&str>) -> (r: Option<String>)
    ensures
        opt_string_view(r) == opt_view(o),
{
    match o {
        Some(s) => Some(owned(s)),
        None => None,
    }
}

impl Cli {
    /// The command line from the matched subcommand's name, the `--output`
    /// argument of that subcommand, and the global `--debug`, `--output` and
    /// `--config` options.
    pub fn parse(
        subcommand: Option<&str>,
        subcommand_output: Option<&str>,
        debug: bool,
        output: Option<&str>,
        config: Option<&str>,
    ) -> (r: Cli)
        requires
            subcommand matches Some(name) ==> known_subcommand(name@),
            subcommand matches Some(name) && takes_output(name@) ==> subcommand_output is Some,
        ensures
            subcommand is None ==> r.command is None,
            subcommand matches Some(name) ==> (r.command matches Some(c) && command_for(
                c,
                name@,
                arg_view(subcommand_output),
            )),
            r.debug == debug,
            opt_string_view(r.output) == opt_view(output),
            opt_string_view(r.config) == opt_view(config),
    {
        let command = match subcommand {
            None => None,
            Some(name) => {
                if str_eq(name, "on") {
                    Some(Command::On)
                } else if str_eq(name, "off") {
                    Some(Command::Off)
                } else if str_eq(name, "kill") {
                    Some(Command::Kill)
                } else if str_eq(name, "restart") {
                    Some(Command::Restart)
                } else if str_eq(name, "status") {
                    Some(Command::Status)
                } else if str_eq(name, "outputs") {
                    Some(Command::Outputs)
                } else if str_eq(name, "output-on") {
                    Some(Command::OutputOn { output: owned(subcommand_output.unwrap()) })
                } else if str_eq(name, "output-off") {
                    Some(Command::OutputOff { output: owned(subcommand_output.unwrap()) })
                } else if str_eq(name, "gui") {
                    Some(Command::Gui)
                } else if str_eq(name, "__run") {
                    Some(Command::__Run)
                } else {
                    Some(Command::__Supervisor)
                }
            },
        };
        Cli { command, debug, output: opt_owned(output), config: opt_owned(config) }
    }
}

} // verus!
