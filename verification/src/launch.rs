//! What the launcher is told: which command to run, with which environment,
//! and whether to wait for it.

use crate::environment::listing;
use crate::models::{Executable, LinkedConfiguration};
use vstd::prelude::*;

verus! {

/// What the user asked for on the command line.
#[derive(Debug)]
pub struct Args {
    /// Path to open with the editor.
    pub path: Option<String>,
    /// A fragment of the name of the configuration to launch.
    pub config: Option<String>,
    /// The identifier of the configuration to launch.
    pub id: Option<i32>,
    /// Editor to use.
    pub editor: String,
    /// Whether to remove `TERM` from the environment of the process.
    pub clear: bool,
    /// Whether to open the editing window and launch nothing.
    pub gui: bool,
}

/// How the launcher treats the process that it starts.
#[derive(Clone, Copy, PartialEq, Eq, Structural, Debug)]
pub enum Mode {
    /// The launcher blocks until the process ends.
    Wait,
    /// The launcher starts the process and leaves.
    Detach,
}

/// Why nothing is launched.
#[derive(Clone, Copy, PartialEq, Eq, Structural, Debug)]
pub enum LaunchError {
    /// No configuration matched the selector.
    NoConfiguration,
    /// The executable asks for a mode that is neither `wait` nor `detach`.
    UnknownMode,
}

/// What the launcher is to do.
#[derive(PartialEq, Debug)]
pub struct Launch {
    /// The command to run.
    pub command: String,
    /// The single argument of the command, if any.
    pub path: Option<String>,
    /// Names to remove from the inherited environment.
    pub remove: Vec<String>,
    /// Names to set, each once.
    pub envs: Vec<(String, String)>,
    pub mode: Mode,
}

/// The mode that the text of an executable row names.
pub open spec fn mode_of(text: Seq<char>) -> Option<Mode> {
    if text == "wait"@ {
        Some(Mode::Wait)
    } else if text == "detach"@ {
        Some(Mode::Detach)
    } else {
        None
    }
}

/// The names that are removed from the inherited environment.
pub open spec fn removed_names(clear: bool) -> Seq<Seq<char>> {
    if clear {
        seq!["TERM"@]
    } else {
        Seq::empty()
    }
}

/// The mode in which `exe` is launched, if it names one.
pub fn launch_mode(exe: &Executable) -> (r: Option<Mode>)
    ensures
        r == mode_of(exe.mode@),
{
    let wait = "wait".to_owned();
    let detach = "detach".to_owned();
    if exe.mode == wait {
        Some(Mode::Wait)
    } else if exe.mode == detach {
        Some(Mode::Detach)
    } else {
        None
    }
}

/// The configuration that is launched: the first one found.
pub fn first_configuration(found: &Vec<LinkedConfiguration>) -> (r: Result<
    &LinkedConfiguration,
    LaunchError,
>)
    ensures
        found.len() == 0 ==> r == Err::<&LinkedConfiguration, LaunchError>(
            LaunchError::NoConfiguration,
        ),
        found.len() > 0 ==> r == Ok::<&LinkedConfiguration, LaunchError>(&found[0]),
{
    if found.len() == 0 {
        Err(LaunchError::NoConfiguration)
    } else {
        Ok(&found[0])
    }
}

/// Tells the launcher how to run `exe` for the configuration `cfg`: the
/// command of the executable, the path of the command line as its argument,
/// `TERM` removed where the command line asks for a clean terminal, and the
/// effective environment of the configuration. It fails exactly where the
/// executable names no known mode.
pub fn execute_configuration(args: &Args, cfg: &LinkedConfiguration, exe: &Executable) -> (r: Result<
    Launch,
    LaunchError,
>)
    ensures
        match mode_of(exe.mode@) {
            None => r == Err::<Launch, LaunchError>(LaunchError::UnknownMode),
            Some(mode) => r matches Ok(launch) && {
                &&& launch.mode == mode
                &&& launch.command@ == exe.executable@
                &&& launch.path.deep_view() == args.path.deep_view()
                &&& launch.remove.deep_view() == removed_names(args.clear)
                &&& launch.envs.deep_view() == listing(cfg@.environments())
            },
        },
{
    match launch_mode(exe) {
        None => Err(LaunchError::UnknownMode),
        Some(mode) => {
            let mut remove: Vec<String> = Vec::new();
            if args.clear {
                remove.push("TERM".to_owned());
            }
            let path = match &args.path {
                Some(p) => Some(p.clone()),
                None => None,
            };
            Ok(
                Launch {
                    command: exe.executable.clone(),
                    path,
                    remove,
                    envs: cfg.get_environments(),
                    mode,
                },
            )
        },
    }
}

} // verus!
