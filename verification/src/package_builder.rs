//! What building a package takes from the documents: the variables that
//! the build command sees, and the name of the package file. Running the
//! command and packing the files is left to the caller.

use crate::config::{AppConfig, AppConfigView};
use vstd::prelude::*;
use vstd::string::{StrSliceExecFns, StringExecFns};

verus! {

/// The variables that the build command is given on top of its own: each
/// plain variable of the configuration under its key with `BLUEBOAT_` in
/// front.
pub open spec fn build_variables(config: AppConfigView) -> Seq<(Seq<char>, Seq<char>)> {
    Seq::new(config.env.len(), |i: int| ("BLUEBOAT_"@ + config.env[i].key, config.env[i].value))
}

/// Names the variables for the build command.
pub fn build_env(config: &AppConfig) -> (vars: Vec<(String, String)>)
    ensures
        vars.deep_view() == build_variables(config.deep_view()),
{
    let n = config.env.len();
    let ghost goal = build_variables(config.deep_view());
    let mut vars: Vec<(String, String)> = Vec::new();
    let mut i: usize = 0;
    while i < n
        invariant
            i <= n,
            n == config.deep_view().env.len(),
            goal == build_variables(config.deep_view()),
            vars.deep_view() =~= goal.subrange(0, i as int),
        decreases n - i,
    {
        if let Some((key, _, value)) = config.env.get_index(i) {
            let mut name = "BLUEBOAT_".to_owned();
            name.append(key.as_str());
            let ghost before = vars.deep_view();
            vars.push((name, value.clone()));
            assert(vars.deep_view() =~= before.push(goal[i as int]));
        }
        i = i + 1;
    }
    assert(goal.subrange(0, n as int) =~= goal);
    vars
}

/// The file that the package is written to when the metadata goes to
/// `output`: the same name with `.tar` in place of `.json`. There is none
/// where `output` does not end in `.json`.
pub open spec fn package_file(output: Seq<char>) -> Option<Seq<char>> {
    if output.len() >= 5 && output.subrange(output.len() - 5, output.len() as int) == ".json"@ {
        Some(output.subrange(0, output.len() - 5) + ".tar"@)
    } else {
        None
    }
}

/// Names the package file that goes with a metadata file.
pub fn package_output(output: &str) -> (name: Option<String>)
    ensures
        name.deep_view() == package_file(output@),
{
    let n = output.unicode_len();
    if n < 5 {
        return None;
    }
    let ending = output.substring_char(n - 5, n).to_owned();
    if ending != ".json".to_owned() {
        return None;
    }
    let mut name = output.substring_char(0, n - 5).to_owned();
    name.append(".tar");
    Some(name)
}

} // verus!
