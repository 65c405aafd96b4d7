//! The pi coding agent, run as a process of its own.

pub mod rpc;

use vstd::prelude::*;

use crate::config;
use crate::text;

verus! {

broadcast use vstd::string::group_string_axioms;

/// The program that is run unless the environment names another.
pub const DEFAULT_PROGRAM: &'static str = "pi";

/// The pi coding agent: which program to run.
pub struct PiProvider {
    pub program: String,
}

/// The arguments that pi is started with: it keeps its sessions in a directory
/// of its own.
pub open spec fn arguments_of(session_dir: Seq<char>, model: Option<Seq<char>>) -> Seq<Seq<char>> {
    let base = seq![
        "--mode"@,
        "rpc"@,
        "--session-dir"@,
        config::path_in(session_dir, "pi"@),
    ];
    match model {
        Some(m) => base + seq!["--model"@, m],
        None => base,
    }
}

impl PiProvider {
    /// The provider that runs a program.
    pub fn new(program: &str) -> (r: Self)
        ensures
            r.program@ == program@,
    {
        PiProvider { program: program.to_owned() }
    }

    /// The provider that runs what the environment names, or the default.
    pub fn from_setting(program: Option<&str>) -> (r: Self)
        ensures
            r.program@ == (match program {
                Some(name) => name@,
                None => DEFAULT_PROGRAM@,
            }),
    {
        match program {
            Some(name) => Self::new(name),
            None => Self::new(DEFAULT_PROGRAM),
        }
    }
}

/// The arguments that pi is started with.
pub fn build_arguments(session_dir: &str, model: &Option<String>) -> (r: Vec<String>)
    ensures
        text::views(r@) == arguments_of(session_dir@, text::opt_view(*model)),
{
    let mut out: Vec<String> = vec![
        "--mode".to_owned(),
        "rpc".to_owned(),
        "--session-dir".to_owned(),
        config::join_path(session_dir, "pi"),
    ];
    match model {
        Some(m) => {
            out.push("--model".to_owned());
            out.push(m.clone());
        },
        None => {},
    }
    assert(text::views(out@) =~= arguments_of(session_dir@, text::opt_view(*model)));
    out
}

/// Pi is run in its protocol mode, keeps its sessions in a place of its own below the
/// session's, and is told the model where one is chosen.
pub proof fn pi_is_told_its_model(session_dir: Seq<char>, model: Seq<char>)
    ensures
        ({
            let plain = arguments_of(session_dir, None);
            let chosen = arguments_of(session_dir, Some(model));
            &&& plain.len() == 4
            &&& plain[0] == "--mode"@ && plain[1] == "rpc"@
            &&& plain[2] == "--session-dir"@ && plain[3] == config::path_in(session_dir, "pi"@)
            &&& chosen.take(4) == plain
            &&& chosen.len() == 6
            &&& chosen[4] == "--model"@ && chosen[5] == model
        }),
{
    assert(arguments_of(session_dir, Some(model)).take(4) =~= arguments_of(session_dir, None));
}

} // verus!
