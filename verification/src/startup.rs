//! What the command line asks for.

use vstd::prelude::*;

use crate::config::AutostartConfig;
use crate::text;

verus! {

/// What the command line asks for: help, or commands to run.
#[derive(Debug)]
pub enum StartupOptions {
    Help,
    Run(Vec<AutostartConfig>),
}

/// What a command line means.
pub enum Startup {
    Help,
    Run(Seq<Seq<char>>),
    Refused(Seq<char>),
}

/// What the arguments from `from` on mean, after the commands before them.
pub open spec fn startup(args: Seq<Seq<char>>, from: int, commands: Seq<Seq<char>>) -> Startup
    decreases args.len() - from,
{
    if from < 0 || from >= args.len() {
        Startup::Run(commands)
    } else if args[from] == "--run"@ {
        if from + 1 >= args.len() {
            Startup::Refused("missing command after --run"@)
        } else if text::blank(args[from + 1]) {
            Startup::Refused("--run command cannot be empty"@)
        } else {
            startup(args, from + 2, commands.push(args[from + 1]))
        }
    } else if args[from] == "--help"@ || args[from] == "-h"@ {
        Startup::Help
    } else if "--run="@.is_prefix_of(args[from]) {
        let command = args[from].skip(6);
        if text::blank(command) {
            Startup::Refused("--run command cannot be empty"@)
        } else {
            startup(args, from + 1, commands.push(command))
        }
    } else {
        Startup::Refused("unknown argument: "@ + args[from])
    }
}

/// The commands, none of which is started again.
pub open spec fn asked_for(run: Seq<AutostartConfig>, commands: Seq<Seq<char>>) -> bool {
    run.len() == commands.len() && forall|i: int|
        0 <= i < run.len() ==> (#[trigger] run[i]).command@ == commands[i] && !run[i].restart
}

fn after_prefix(argument: &str) -> (r: Option<String>)
    ensures
        text::option(r) == (if "--run="@.is_prefix_of(argument@) {
            Some(argument@.skip(6))
        } else {
            None
        }),
{
    let chars = text::chars_of(argument);
    proof {
        reveal_strlit("--run=");
    }
    let count: usize = chars.len();
    if count < 6 {
        return None;
    }
    let start = text::slice_of(&chars, 0, 6);
    assert(start@ =~= argument@.subrange(0, 6));
    if !text::chars_are(&start, "--run=") {
        return None;
    }
    let rest = text::slice_of(&chars, 6, count);
    assert(rest@ =~= argument@.skip(6));
    Some(text::string_of(&rest))
}

/// Reads the command line.
pub fn parse_startup_options(args: &Vec<String>) -> (r: Result<StartupOptions, String>)
    ensures
        match (r, startup(text::strings(args@), 0, Seq::empty())) {
            (Ok(StartupOptions::Help), Startup::Help) => true,
            (Ok(StartupOptions::Run(run)), Startup::Run(commands)) => asked_for(run@, commands),
            (Err(message), Startup::Refused(expected)) => message@ == expected,
            _ => false,
        },
{
    let ghost all = text::strings(args@);
    let ghost mut commands: Seq<Seq<char>> = Seq::empty();
    let mut run: Vec<AutostartConfig> = Vec::new();
    let mut i: usize = 0;
    while i < args.len()
        invariant
            i <= args@.len(),
            all == text::strings(args@),
            asked_for(run@, commands),
            startup(all, 0, Seq::empty()) == startup(all, i as int, commands),
        decreases args@.len() - i,
    {
        let argument = args[i].as_str();
        assert(all[i as int] == argument@);
        let command = if text::text_eq(argument, "--run") {
            if i + 1 >= args.len() {
                return Err("missing command after --run".to_owned());
            }
            i = i + 1;
            assert(all[i as int] == args@[i as int]@);
            args[i].clone()
        } else if text::text_eq(argument, "--help") || text::text_eq(argument, "-h") {
            return Ok(StartupOptions::Help);
        } else {
            match after_prefix(argument) {
                Some(command) => command,
                None => {
                    return Err(text::join2("unknown argument: ", argument));
                },
            }
        };
        if text::is_blank(command.as_str()) {
            return Err("--run command cannot be empty".to_owned());
        }
        proof {
            commands = commands.push(command@);
        }
        run.push(AutostartConfig { command, restart: false });
        i = i + 1;
    }
    Ok(StartupOptions::Run(run))
}

} // verus!
