//! Hook scripts: where they lie and how they are named.
use crate::plan::{Action, ActionView};
use vstd::prelude::*;
use vstd::string::*;

verus! {

/// The path of the hook script `hook`: the hooks directory, then the name.
pub open spec fn hook_path(hook: Seq<char>) -> Seq<char> {
    "/etc/config/network/hooks/"@ + hook
}

/// The name of the hook of one event on one interface: the event, a dot,
/// the interface.
pub open spec fn hook_name(event: Seq<char>, interface: Seq<char>) -> Seq<char> {
    event + "."@ + interface
}

/// The run of the hook of `event` on `interface`.
pub open spec fn hook_action(event: Seq<char>, interface: Seq<char>) -> ActionView {
    ActionView::Hook(hook_path(hook_name(event, interface)))
}

/// The run of the hook script named `hook`: the caller runs the file at
/// the path if it is there. A hook that exits with failure stops nothing.
pub fn run_hook(hook: String) -> (action: Action)
    ensures
        action@ == ActionView::Hook(hook_path(hook@)),
{
    let mut path = String::from_str("/etc/config/network/hooks/");
    path.append(hook.as_str());
    Action::Hook(path)
}

/// The run of the hook of `event` on `interface`.
pub fn interface_hook(event: &str, interface: &str) -> (action: Action)
    ensures
        action@ == hook_action(event@, interface@),
{
    let mut name = String::from_str(event);
    name.append(".");
    name.append(interface);
    run_hook(name)
}

} // verus!
