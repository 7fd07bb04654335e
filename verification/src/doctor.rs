//! The verdicts of `rad doctor` on the checks it runs.
use vstd::prelude::*;
use crate::text;

verus! {

/// The directories a workspace must hold, relative to its root.
pub open spec fn required_dir_names() -> Seq<Seq<char>> {
    seq![".radium"@, ".radium/plan"@, ".radium/memory"@]
}

/// The directories a workspace must hold, relative to its root.
pub fn required_dirs() -> (r: Vec<String>)
    ensures
        text::strings_view(r@) == required_dir_names(),
{
    let r = vec![
        String::from_str(".radium"),
        String::from_str(".radium/plan"),
        String::from_str(".radium/memory"),
    ];
    assert(text::strings_view(r@) =~= required_dir_names());
    r
}

/// The problems of an engine, by what its validation found, in this order:
/// an invalid configuration, missing credentials, an unreachable API.
pub open spec fn engine_problems(config_valid: bool, credentials_available: bool, api_reachable: bool) -> Seq<Seq<char>> {
    (if config_valid {
        Seq::empty()
    } else {
        seq!["invalid config"@]
    }) + (if credentials_available {
        Seq::empty()
    } else {
        seq!["missing credentials"@]
    }) + if api_reachable {
        Seq::empty()
    } else {
        seq!["API unreachable"@]
    }
}

/// The problems reported for an engine; none means all checks passed.
pub fn engine_issues(config_valid: bool, credentials_available: bool, api_reachable: bool) -> (r: Vec<
    String,
>)
    ensures
        text::strings_view(r@) == engine_problems(config_valid, credentials_available, api_reachable),
{
    let mut r: Vec<String> = Vec::new();
    if !config_valid {
        r.push(String::from_str("invalid config"));
    }
    let ghost a = text::strings_view(r@);
    if !credentials_available {
        r.push(String::from_str("missing credentials"));
    }
    let ghost b = text::strings_view(r@);
    assert(b =~= a + if credentials_available {
        Seq::<Seq<char>>::empty()
    } else {
        seq!["missing credentials"@]
    });
    if !api_reachable {
        r.push(String::from_str("API unreachable"));
    }
    assert(text::strings_view(r@) =~= engine_problems(config_valid, credentials_available, api_reachable));
    r
}

/// Whether every check passed: the workspace was found with all its
/// directories, and no engine has a problem.
pub fn all_checks_passed(workspace_found: bool, structure_complete: bool, engine_problem_found: bool) -> (r:
    bool)
    ensures
        r == (workspace_found && structure_complete && !engine_problem_found),
{
    workspace_found && structure_complete && !engine_problem_found
}

} // verus!
