//! Script injection: evaluate a caller-supplied script string inside the
//! content context of the window named by a label.

use vstd::prelude::*;
use crate::registry::Registry;

verus! {

/// Why a script injection failed. Callers of the external operation see both
/// kinds collapsed into one opaque failure signal; the distinction exists
/// only inside the shim.
#[derive(Clone, Copy, Debug, PartialEq, Eq, Structural)]
pub enum InjectError {
    /// No open window has the requested label.
    WindowNotFound,
    /// The window exists but evaluation of the script could not be
    /// dispatched to it.
    EvaluationFailed,
}

/// Decide the outcome of injecting `script` into the window labelled
/// `label`, given a snapshot of the registry and whether the shell accepted
/// the evaluation dispatch. `eval_accepted` is what the shell reported for
/// the dispatch attempt; it is consulted only when the window exists, so a
/// caller that found no window may pass anything.
pub fn inject(
    registry: &Registry,
    label: &String,
    script: &String,
    eval_accepted: bool,
) -> (r: Result<bool, InjectError>)
    ensures
        !registry.open_set().contains(label@) ==> r == Err::<bool, InjectError>(
            InjectError::WindowNotFound,
        ),
        registry.open_set().contains(label@) && eval_accepted ==> r == Ok::<bool, InjectError>(
            true,
        ),
        registry.open_set().contains(label@) && !eval_accepted ==> r == Err::<bool, InjectError>(
            InjectError::EvaluationFailed,
        ),
{
    let _ = script;
    if !registry.contains_label(label) {
        Err(InjectError::WindowNotFound)
    } else if eval_accepted {
        Ok(true)
    } else {
        Err(InjectError::EvaluationFailed)
    }
}

} // verus!
