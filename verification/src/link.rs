//! Link control: the commands that act on a network interface, and the
//! readers of what they print.
pub mod dhcpc;
pub mod dhcpd;
pub mod interface;
pub mod routing;
