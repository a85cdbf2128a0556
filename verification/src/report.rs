//! What is worth a line in the log: the outcomes that stop nothing and that
//! an operator still wants to see.
use crate::plan::{Action, ActionView, Outcome};
use crate::text::same_text;
use vstd::prelude::*;
use vstd::string::*;

verus! {

/// The number of arguments of a DHCP client that only probes.
pub const PROBE_ARGUMENTS: usize = 4;

/// The line for the outcome of a DHCP client: of a probe, whether a router
/// is there; of a client that stays, whether it got a lease.
pub open spec fn client_remark(probe: bool, success: bool) -> Seq<char> {
    if probe {
        if success {
            "Router already on this network, failover mode enabled"@
        } else {
            "No router found on this network, beginning normal configuration"@
        }
    } else {
        if success {
            "Got DHCP lease"@
        } else {
            "Could not get DHCP lease"@
        }
    }
}

/// The line for the outcome of an echo to the gateway.
pub open spec fn echo_remark(success: bool) -> Seq<char> {
    if success {
        "Router is still up, continuing failover mode"@
    } else {
        "Router is down, beginning normal configuration"@
    }
}

/// The line for the outcome of `action`, if it is worth one: what a DHCP
/// client found, what the service manager printed, whether the gateway
/// answered. An action that was not carried out stops its task, which says
/// so itself.
pub open spec fn remark_of(action: ActionView, outcome: Outcome) -> Option<Seq<char>> {
    match outcome {
        Outcome::Unperformed => None,
        Outcome::Finished { success, output } => match action {
            ActionView::Run(command) => if command.program == "udhcpc"@ {
                Some(client_remark(command.args.len() == PROBE_ARGUMENTS, success))
            } else if command.program == "rc-service"@ {
                Some("RC-Service log: "@ + output@)
            } else {
                None
            },
            ActionView::Ping { .. } => Some(echo_remark(success)),
            _ => None,
        },
    }
}

/// The line for the outcome of `action`, if it is worth one.
pub fn remark(action: &Action, outcome: &Outcome) -> (r: Option<String>)
    ensures
        match r {
            Some(line) => remark_of(action@, *outcome) == Some(line@),
            None => remark_of(action@, *outcome).is_none(),
        },
{
    match outcome {
        Outcome::Unperformed => None,
        Outcome::Finished { success, output } => {
            let success = *success;
            match action {
                Action::Run(command) => {
                    if same_text(command.program.as_str(), "udhcpc") {
                        let probe = command.args.len() == PROBE_ARGUMENTS;
                        let line = if probe {
                            if success {
                                "Router already on this network, failover mode enabled"
                            } else {
                                "No router found on this network, beginning normal configuration"
                            }
                        } else {
                            if success {
                                "Got DHCP lease"
                            } else {
                                "Could not get DHCP lease"
                            }
                        };
                        Some(String::from_str(line))
                    } else if same_text(command.program.as_str(), "rc-service") {
                        let mut line = String::from_str("RC-Service log: ");
                        line.append(output.as_str());
                        Some(line)
                    } else {
                        None
                    }
                },
                Action::Ping { .. } => {
                    let line = if success {
                        "Router is still up, continuing failover mode"
                    } else {
                        "Router is down, beginning normal configuration"
                    };
                    Some(String::from_str(line))
                },
                _ => None,
            }
        },
    }
}

} // verus!
