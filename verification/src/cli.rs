//! The command line: which command runs, whether the development server
//! uses the terminal interface, and where a build's directories come from.

use vstd::prelude::*;
use crate::inputs::{camino_join, path_join, path_parent, project_root};
use crate::text::{append_str, chars_to_string, eq_str, str_chars};

verus! {

/// The commands of the program.
#[derive(Clone, Copy, Debug, PartialEq, Eq, Structural)]
pub enum CommandName {
    Build,
    Serve,
    Clean,
    Static,
    Init,
    Help,
}

/// Why no command could be chosen.
#[derive(Clone, Debug)]
pub enum CommandError {
    /// No command was given
    NoCommand,
    /// The command given is not known
    Unknown(String),
}

impl CommandError {
    /// The error message.
    pub fn message(&self) -> (r: String)
        ensures
            r@ == match self {
                CommandError::NoCommand => "No command specified"@,
                CommandError::Unknown(c) => "Unknown command: "@ + c@,
            },
    {
        match self {
            CommandError::NoCommand => String::from_str("No command specified"),
            CommandError::Unknown(c) => {
                let mut t = str_chars("Unknown command: ");
                append_str(&mut t, c.as_str());
                chars_to_string(&t)
            },
        }
    }
}

/// The command a word names, if any.
pub open spec fn command_named(w: Seq<char>) -> Option<CommandName> {
    if w == "build"@ {
        Some(CommandName::Build)
    } else if w == "serve"@ {
        Some(CommandName::Serve)
    } else if w == "clean"@ {
        Some(CommandName::Clean)
    } else if w == "static"@ {
        Some(CommandName::Static)
    } else if w == "init"@ {
        Some(CommandName::Init)
    } else if w == "--help"@ || w == "-h"@ || w == "help"@ {
        Some(CommandName::Help)
    } else {
        None
    }
}

/// The command chosen by the program's arguments (the program's name
/// first, then the command, then the command's own arguments).
pub fn select_command(args: &Vec<String>) -> (r: Result<CommandName, CommandError>)
    ensures
        args@.len() < 2 ==> r matches Err(CommandError::NoCommand),
        args@.len() >= 2 ==> match command_named(args@[1]@) {
            Some(c) => r == Ok::<CommandName, CommandError>(c),
            None => r matches Err(CommandError::Unknown(w)) && w@ == args@[1]@,
        },
{
    if args.len() < 2 {
        return Err(CommandError::NoCommand);
    }
    let w = str_chars(args[1].as_str());
    if eq_str(&w, "build") {
        Ok(CommandName::Build)
    } else if eq_str(&w, "serve") {
        Ok(CommandName::Serve)
    } else if eq_str(&w, "clean") {
        Ok(CommandName::Clean)
    } else if eq_str(&w, "static") {
        Ok(CommandName::Static)
    } else if eq_str(&w, "init") {
        Ok(CommandName::Init)
    } else if eq_str(&w, "--help") || eq_str(&w, "-h") || eq_str(&w, "help") {
        Ok(CommandName::Help)
    } else {
        Err(CommandError::Unknown(args[1].clone()))
    }
}

/// Whether `serve` uses the terminal interface: when forced, or when not
/// refused and standard output is a terminal. Receiving the listening
/// socket from another process only works without it.
pub fn serve_uses_tui(force_tui: bool, no_tui: bool, stdout_is_terminal: bool, fd_socket: bool) -> (r:
    Result<bool, String>)
    ensures
        match r {
            Ok(t) => t == (force_tui || (!no_tui && stdout_is_terminal)) && !(t && fd_socket),
            Err(m) => (force_tui || (!no_tui && stdout_is_terminal)) && fd_socket
                && m@ == "FD passing is only supported in --no-tui mode"@,
        },
        (force_tui || (!no_tui && stdout_is_terminal)) && fd_socket <==> r is Err,
{
    let tui = force_tui || (!no_tui && stdout_is_terminal);
    if tui && fd_socket {
        Err(String::from_str("FD passing is only supported in --no-tui mode"))
    } else {
        Ok(tui)
    }
}

/// What the project's configuration file gives a build.
#[derive(Clone, Debug)]
pub struct ProjectConfig {
    pub content_dir: String,
    pub output_dir: String,
    pub skip_domains: Vec<String>,
    pub rate_limit_ms: Option<u64>,
    pub stable_assets: Vec<String>,
}

/// Where a build reads from and writes to, and its link checking and
/// asset settings.
#[derive(Clone, Debug)]
pub struct ResolvedBuildConfig {
    pub content_dir: String,
    pub output_dir: String,
    pub skip_domains: Vec<String>,
    pub rate_limit_ms: Option<u64>,
    pub stable_assets: Vec<String>,
}

/// The directories given on the command line, when both are: then no
/// configuration file is needed, and the settings are their defaults.
pub fn dirs_from_args(content: &Option<String>, output: &Option<String>) -> (r: Option<ResolvedBuildConfig>)
    ensures
        match r {
            Some(c) => content.is_some() && output.is_some() && c.content_dir@ == content.unwrap()@
                && c.output_dir@ == output.unwrap()@ && c.skip_domains@.len() == 0
                && c.rate_limit_ms.is_none() && c.stable_assets@.len() == 0,
            None => content.is_none() || output.is_none(),
        },
{
    match (content, output) {
        (Some(c), Some(o)) => Some(
            ResolvedBuildConfig {
                content_dir: c.clone(),
                output_dir: o.clone(),
                skip_domains: Vec::new(),
                rate_limit_ms: None,
                stable_assets: Vec::new(),
            },
        ),
        _ => None,
    }
}

/// Where the configuration file was looked for: in the project directory
/// given, or in the current one.
pub open spec fn config_path_text(path: Option<Seq<char>>) -> Seq<char> {
    match path {
        Some(p) => p + "/.config/dodeca.kdl"@,
        None => ".config/dodeca.kdl"@,
    }
}

/// A build's settings from the configuration found (if any), with the
/// directories given on the command line taking precedence. Without a
/// configuration the error is the path where it was looked for.
pub fn resolve_with_config(
    path: &Option<String>,
    content: Option<String>,
    output: Option<String>,
    config: Option<ProjectConfig>,
) -> (r: Result<ResolvedBuildConfig, String>)
    ensures
        match config {
            Some(cfg) => r matches Ok(c) && c.content_dir@ == (match content {
                Some(d) => d@,
                None => cfg.content_dir@,
            }) && c.output_dir@ == (match output {
                Some(d) => d@,
                None => cfg.output_dir@,
            }) && c.skip_domains@ == cfg.skip_domains@ && c.rate_limit_ms == cfg.rate_limit_ms
                && c.stable_assets@ == cfg.stable_assets@,
            None => r matches Err(m) && m@ == config_path_text(
                match path {
                    Some(p) => Some(p@),
                    None => None,
                },
            ),
        },
{
    match config {
        Some(cfg) => {
            let content_dir = match content {
                Some(d) => d,
                None => cfg.content_dir,
            };
            let output_dir = match output {
                Some(d) => d,
                None => cfg.output_dir,
            };
            Ok(
                ResolvedBuildConfig {
                    content_dir,
                    output_dir,
                    skip_domains: cfg.skip_domains,
                    rate_limit_ms: cfg.rate_limit_ms,
                    stable_assets: cfg.stable_assets,
                },
            )
        },
        None => match path {
            Some(p) => {
                let mut t = str_chars(p.as_str());
                append_str(&mut t, "/.config/dodeca.kdl");
                Err(chars_to_string(&t))
            },
            None => Err(String::from_str(".config/dodeca.kdl")),
        },
    }
}

/// The project directory `clean` works in: the one given, else the one the
/// configured content directory stands in, else the current directory.
pub open spec fn clean_base_spec(path: Option<Seq<char>>, config_content_dir: Option<Seq<char>>) -> Seq<char> {
    match path {
        Some(p) => p,
        None => match config_content_dir {
            Some(c) => project_root(c),
            None => "."@,
        },
    }
}

/// The cache directory `clean` removes: `.cache` in the project directory.
pub fn clean_cache_dir(path: &Option<String>, config_content_dir: &Option<String>) -> (r: String)
    ensures
        r@ == camino_join(
            clean_base_spec(
                match path {
                    Some(p) => Some(p@),
                    None => None,
                },
                match config_content_dir {
                    Some(c) => Some(c@),
                    None => None,
                },
            ),
            ".cache"@,
        ),
{
    let base: String = match path {
        Some(p) => p.clone(),
        None => match config_content_dir {
            Some(c) => match path_parent(c.as_str()) {
                Some(parent) => parent,
                None => c.clone(),
            },
            None => String::from_str("."),
        },
    };
    proof {
        reveal_strlit(".cache");
    }
    path_join(base.as_str(), ".cache")
}

} // verus!
