//! Where the cost budget is stored.
use vstd::prelude::*;
use crate::paths;

verus! {

/// Why the budget location cannot be determined.
#[derive(Debug, Clone, Copy, PartialEq, Eq)]
pub enum BudgetPathError {
    /// The `HOME` environment variable is not set.
    HomeNotSet,
}

/// The budget directory under a home directory: `<home>/.radium/budgets`.
pub open spec fn budget_dir_path(home: Seq<char>) -> Seq<char> {
    paths::join_path(paths::join_path(home, ".radium"@), "budgets"@)
}

/// The budget directory, given the value of `HOME` (`None` when unset).
pub fn budget_dir(home: Option<String>) -> (r: Result<String, BudgetPathError>)
    ensures
        match home {
            Some(h) => r matches Ok(d) && d@ == budget_dir_path(h@),
            None => r == Err::<String, BudgetPathError>(BudgetPathError::HomeNotSet),
        },
{
    match home {
        None => Err(BudgetPathError::HomeNotSet),
        Some(h) => {
            let radium = paths::join(h.as_str(), ".radium");
            Ok(paths::join(radium.as_str(), "budgets"))
        },
    }
}

/// The budget file, given the value of `HOME`: `<home>/.radium/budgets/default.json`.
pub fn budget_file(home: Option<String>) -> (r: Result<String, BudgetPathError>)
    ensures
        match home {
            Some(h) => r matches Ok(f) && f@ == paths::join_path(
                budget_dir_path(h@),
                "default.json"@,
            ),
            None => r == Err::<String, BudgetPathError>(BudgetPathError::HomeNotSet),
        },
{
    let dir = budget_dir(home)?;
    Ok(paths::join(dir.as_str(), "default.json"))
}

impl BudgetPathError {
    /// The message shown for the error.
    pub fn message(&self) -> (r: String)
        ensures
            r@ == "HOME environment variable not set"@,
    {
        String::from_str("HOME environment variable not set")
    }
}

} // verus!
