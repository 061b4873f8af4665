//! Settings for spawning cells (the helper processes that do the heavy
//! work: markdown, images, fonts, HTTP).

use vstd::prelude::*;
use crate::inputs::{camino_join, path_join};
use crate::text::{contains_exec, contains_seq, str_chars};

verus! {

/// How a cell process is spawned.
#[derive(Clone, Copy, Debug)]
pub struct CellSpawnConfig {
    /// Whether the cell inherits stdin, stdout and stderr (terminal cells)
    pub inherit_stdio: bool,
    /// Whether the child process is managed internally (a task waits on
    /// it); otherwise the caller gets it
    pub manage_child: bool,
}

impl Default for CellSpawnConfig {
    fn default() -> (r: CellSpawnConfig)
        ensures
            !r.inherit_stdio,
            r.manage_child,
    {
        CellSpawnConfig { inherit_stdio: false, manage_child: true }
    }
}

/// The HTTP cell's binary name. Cells are located by the hub, so this is
/// the bare name rather than a resolved path.
pub fn find_cell_path() -> (r: String)
    ensures
        r@ == "ddc-cell-http"@,
{
    String::from_str("ddc-cell-http")
}


/// Where the cell binaries were found.
#[derive(Clone, Copy, Debug, PartialEq, Eq, Structural)]
pub enum CellPathSource {
    /// The `DODECA_CELL_PATH` environment variable (used alone)
    EnvVar,
    /// The executable's own directory
    AdjacentToExe,
    /// The `cells` directory beside the executable
    CellsSubdir,
    /// The build output directory of a development checkout
    DevFallback,
}

/// The development build directory of the profile the program was built
/// with.
pub open spec fn dev_profile_dir(release: bool) -> Seq<char> {
    if release {
        "target/release"@
    } else {
        "target/debug"@
    }
}

/// The directories searched for the cells, in order: the executable's
/// directory and its `cells` directory (when the executable's directory is
/// known), then the development build directory.
pub open spec fn cell_dir_candidates_spec(exe_dir: Option<Seq<char>>, release: bool) -> Seq<(Seq<char>, CellPathSource)> {
    match exe_dir {
        Some(d) => seq![
            (d, CellPathSource::AdjacentToExe),
            (camino_join(d, "cells"@), CellPathSource::CellsSubdir),
            (dev_profile_dir(release), CellPathSource::DevFallback),
        ],
        None => seq![(dev_profile_dir(release), CellPathSource::DevFallback)],
    }
}

/// The directories to search for the cells, in order.
pub fn cell_dir_candidates(exe_dir: &Option<String>, release: bool) -> (r: Vec<(String, CellPathSource)>)
    ensures
        r@.map_values(|e: (String, CellPathSource)| (e.0@, e.1)) == cell_dir_candidates_spec(
            match exe_dir {
                Some(d) => Some(d@),
                None => None,
            },
            release,
        ),
{
    proof {
        reveal_strlit("cells");
        reveal_strlit("target/release");
        reveal_strlit("target/debug");
    }
    let dev = if release {
        String::from_str("target/release")
    } else {
        String::from_str("target/debug")
    };
    let mut out: Vec<(String, CellPathSource)> = Vec::new();
    match exe_dir {
        Some(d) => {
            out.push((d.clone(), CellPathSource::AdjacentToExe));
            out.push((path_join(d.as_str(), "cells"), CellPathSource::CellsSubdir));
            out.push((dev, CellPathSource::DevFallback));
        },
        None => {
            out.push((dev, CellPathSource::DevFallback));
        },
    }
    proof {
        assert(out@.map_values(|e: (String, CellPathSource)| (e.0@, e.1)) =~= cell_dir_candidates_spec(
            match exe_dir {
                Some(d) => Some(d@),
                None => None,
            },
            release,
        ));
    }
    out
}

/// The first index `i` at or after `from` with `present[i]`, if any.
pub open spec fn first_present(present: Seq<bool>, from: int) -> Option<int>
    decreases present.len() - from,
{
    if from < 0 || from >= present.len() {
        None
    } else if present[from] {
        Some(from)
    } else {
        first_present(present, from + 1)
    }
}

/// The cell directory: the one the environment names, used alone; else
/// the first candidate in which the HTTP cell binary is present
/// (`present[i]` for `candidates[i]`); else none.
pub fn choose_cell_directory(
    env_path: &Option<String>,
    candidates: &Vec<(String, CellPathSource)>,
    present: &Vec<bool>,
) -> (r: Option<(String, CellPathSource)>)
    requires
        present@.len() == candidates@.len(),
    ensures
        match env_path {
            Some(p) => r matches Some(c) && c.0@ == p@ && c.1 == CellPathSource::EnvVar,
            None => match first_present(present@, 0) {
                Some(i) => r matches Some(c) && c.0@ == candidates@[i].0@ && c.1 == candidates@[i].1,
                None => r is None,
            },
        },
{
    if let Some(p) = env_path {
        return Some((p.clone(), CellPathSource::EnvVar));
    }
    let mut i: usize = 0;
    while i < present.len()
        invariant
            i <= present.len(),
            present@.len() == candidates@.len(),
            env_path is None,
            first_present(present@, 0) == first_present(present@, i as int),
        decreases present.len() - i,
    {
        if present[i] {
            return Some((candidates[i].0.clone(), candidates[i].1));
        }
        i += 1;
    }
    None
}


impl CellPathSource {
    /// How the source is named in the log.
    pub fn label(&self) -> (r: &'static str)
        ensures
            r@ == match *self {
                CellPathSource::EnvVar => "env:DODECA_CELL_PATH"@,
                CellPathSource::AdjacentToExe => "adjacent"@,
                CellPathSource::CellsSubdir => "cells_subdir"@,
                CellPathSource::DevFallback => "dev_fallback"@,
            },
    {
        match self {
            CellPathSource::EnvVar => "env:DODECA_CELL_PATH",
            CellPathSource::AdjacentToExe => "adjacent",
            CellPathSource::CellsSubdir => "cells_subdir",
            CellPathSource::DevFallback => "dev_fallback",
        }
    }
}

/// Whether the executable runs from a development build directory.
pub fn in_dev_target(exe_path: &str) -> (r: bool)
    ensures
        r == (contains_seq(exe_path@, "/target/debug/"@) || contains_seq(exe_path@, "/target/release/"@)),
{
    let p = str_chars(exe_path);
    let debug = str_chars("/target/debug/");
    let release = str_chars("/target/release/");
    contains_exec(&p, &debug) || contains_exec(&p, &release)
}

/// Whether a `Cargo.toml` is a workspace's root manifest.
pub fn is_workspace_manifest(contents: &str) -> (r: bool)
    ensures
        r == contains_seq(contents@, "[workspace]"@),
{
    let c = str_chars(contents);
    let w = str_chars("[workspace]");
    contains_exec(&c, &w)
}

} // verus!
