//! The DHCP client.
use crate::link::interface::{push_text, Interface};
use crate::plan::{Command, CommandView};
use crate::text::texts;
use vstd::prelude::*;
use vstd::string::*;

verus! {

/// `udhcpc -i NAME`, with `-n -q` for a probe: the client then gives up
/// when no lease comes, and leaves once it has one, instead of staying in
/// the background.
pub open spec fn client_command(name: Seq<char>, no_bg: bool) -> CommandView {
    let args = if no_bg {
        seq!["-i"@, name, "-n"@, "-q"@]
    } else {
        seq!["-i"@, name]
    };
    CommandView { program: "udhcpc"@, args }
}

/// The command that runs a DHCP client on the interface. Its success means
/// that a lease was obtained.
pub fn dhcp_client(interface: &Interface, no_bg: bool) -> (c: Command)
    ensures
        c@ == client_command(interface.name@, no_bg),
{
    let mut args: Vec<String> = Vec::new();
    push_text(&mut args, "-i");
    push_text(&mut args, interface.name.as_str());
    if no_bg {
        push_text(&mut args, "-n");
        push_text(&mut args, "-q");
        assert(texts(args@) =~= seq!["-i"@, interface.name@, "-n"@, "-q"@]);
    } else {
        assert(texts(args@) =~= seq!["-i"@, interface.name@]);
    }
    Command { program: String::from_str("udhcpc"), args }
}

} // verus!
