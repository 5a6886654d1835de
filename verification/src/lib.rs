//! A small host-application shim for a GUI shell that manages labelled
//! windows. It offers two operations to remote callers: injecting a script
//! into a named window's content context, and reconciling the set of open
//! secondary windows against a caller-supplied keep-list. The registry of
//! open windows is modelled here as the set of labels of the windows that
//! are open; the shell that actually owns the windows performs the script
//! evaluation and the window closures that these operations decide on.

pub mod inject;
pub mod reconcile;
pub mod registry;
