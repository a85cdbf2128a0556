//! Routes.
use crate::link::interface::{ip, ip_command, push_text};
use crate::plan::{Command, CommandView};
use crate::text::texts;
use vstd::prelude::*;

verus! {

/// `ip route add ROUTE via NET`
pub open spec fn route_command(net: Seq<char>, route: Seq<char>) -> CommandView {
    ip(seq!["route"@, "add"@, route, "via"@, net])
}

/// The command that adds the route `route` through the gateway `net`.
pub fn add_route_via(net: &str, route: &str) -> (c: Command)
    ensures
        c@ == route_command(net@, route@),
{
    let mut args: Vec<String> = Vec::new();
    push_text(&mut args, "route");
    push_text(&mut args, "add");
    push_text(&mut args, route);
    push_text(&mut args, "via");
    push_text(&mut args, net);
    assert(texts(args@) =~= seq!["route"@, "add"@, route@, "via"@, net@]);
    ip_command(args)
}

} // verus!
