use netd::link::dhcpc::dhcp_client;
use netd::link::interface::{find_text, find_token, unquote, Interface};
use netd::link::routing::add_route_via;
use netd::plan::Command;

fn cmd(program: &str, args: &[&str]) -> Command {
    Command { program: program.to_string(), args: args.iter().map(|a| a.to_string()).collect() }
}

const LISTING: &str = "2: eth0: <BROADCAST,MULTICAST,UP,LOWER_UP> mtu 1500 qdisc fq_codel state UP mode DEFAULT group default qlen 1000\n    link/ether 52:54:00:12:34:56 brd ff:ff:ff:ff:ff:ff\n    alias \"CONFIGURED\"\n";

const DOWN_LISTING: &str = "3: eth1: <BROADCAST,MULTICAST> mtu 1500 qdisc noop state DOWN mode DEFAULT group default qlen 1000\n    link/ether 52:54:00:aa:bb:cc brd ff:ff:ff:ff:ff:ff\n";

#[test]
fn handle_goes_by_its_name() {
    let eth0 = Interface::get_from_name("eth0");
    assert_eq!(eth0.name, "eth0");
}

#[test]
fn link_commands() {
    let eth0 = Interface::get_from_name("eth0");
    assert_eq!(Interface::create("br0", "bridge"), cmd("ip", &["link", "add", "br0", "type", "bridge"]));
    assert_eq!(eth0.is_present(), cmd("ip", &["link", "show", "eth0"]));
    assert_eq!(eth0.show(), cmd("ip", &["link", "show", "eth0"]));
    assert_eq!(eth0.up(), cmd("ip", &["link", "set", "eth0", "up"]));
    assert_eq!(eth0.down(), cmd("ip", &["link", "set", "eth0", "down"]));
    assert_eq!(eth0.delete(), cmd("ip", &["link", "delete", "dev", "eth0"]));
    assert_eq!(eth0.set_master("br0"), cmd("ip", &["link", "set", "dev", "eth0", "master", "br0"]));
    assert_eq!(eth0.set_nomaster(), cmd("ip", &["link", "set", "dev", "eth0", "nomaster"]));
}

#[test]
fn address_commands() {
    let eth0 = Interface::get_from_name("eth0");
    assert_eq!(eth0.add_address("10.0.0.1", 24), cmd("ip", &["addr", "add", "10.0.0.1/24", "dev", "eth0"]));
    assert_eq!(eth0.add_address("192.168.1.1", 0), cmd("ip", &["addr", "add", "192.168.1.1/0", "dev", "eth0"]));
    assert_eq!(eth0.add_address("fe80::1", 128), cmd("ip", &["addr", "add", "fe80::1/128", "dev", "eth0"]));
    assert_eq!(eth0.flush_addresses(), cmd("ip", &["addr", "flush", "dev", "eth0"]));
    assert_eq!(eth0.routes(), cmd("ip", &["route", "show", "dev", "eth0"]));
}

#[test]
fn description_is_set_with_its_quotation_marks() {
    let eth0 = Interface::get_from_name("eth0");
    assert_eq!(
        eth0.set_description("CONFIGURED"),
        cmd("ip", &["link", "set", "dev", "eth0", "alias", "\"CONFIGURED\""])
    );
    assert_eq!(eth0.set_description(""), cmd("ip", &["link", "set", "dev", "eth0", "alias", "\"\""]));
}

#[test]
fn rename_changes_the_handle() {
    let mut link = Interface::get_from_name("enp3s0");
    assert_eq!(link.rename("wan0"), cmd("ip", &["link", "set", "enp3s0", "name", "wan0"]));
    assert_eq!(link.name, "wan0");
    assert_eq!(link.up(), cmd("ip", &["link", "set", "wan0", "up"]));
}

#[test]
fn route_command() {
    assert_eq!(add_route_via("10.0.0.254", "default"), cmd("ip", &["route", "add", "default", "via", "10.0.0.254"]));
}

#[test]
fn client_commands() {
    let eth0 = Interface::get_from_name("eth0");
    assert_eq!(dhcp_client(&eth0, false), cmd("udhcpc", &["-i", "eth0"]));
    assert_eq!(dhcp_client(&eth0, true), cmd("udhcpc", &["-i", "eth0", "-n", "-q"]));
}

#[test]
fn description_is_read_after_alias() {
    assert_eq!(Interface::get_description(LISTING), Some("CONFIGURED".to_string()));
    let probing = LISTING.replace("CONFIGURED", "FAILOVER_PROBING");
    assert_eq!(Interface::get_description(&probing), Some("FAILOVER_PROBING".to_string()));
}

#[test]
fn cleared_description_is_empty() {
    let cleared = LISTING.replace("\"CONFIGURED\"", "\"\"");
    assert_eq!(Interface::get_description(&cleared), Some(String::new()));
}

#[test]
fn listing_without_alias_has_the_empty_description() {
    assert_eq!(Interface::get_description(DOWN_LISTING), Some(String::new()));
    assert_eq!(Interface::get_description("2: eth0: mtu 1500"), Some(String::new()));
    assert_eq!(Interface::get_description("7: xCONFIGUREDx: mtu 1500"), Some(String::new()));
    assert_eq!(Interface::get_description("2: \"CONFIGURED\""), Some(String::new()));
    assert_eq!(Interface::get_description("2: ab"), Some(String::new()));
    assert_eq!(Interface::get_description("2:"), Some(String::new()));
    assert_eq!(Interface::get_description(""), Some(String::new()));
}

#[test]
fn listing_that_ends_at_alias_has_no_description() {
    assert_eq!(Interface::get_description("2: eth0: alias"), None);
    assert_eq!(Interface::get_description("alias"), None);
    assert_eq!(Interface::get_description("2: eth0: mtu 1500\n    alias \n"), None);
}

#[test]
fn first_alias_gives_the_description() {
    assert_eq!(
        Interface::get_description("2: eth0: alias \"CONFIGURING\" alias \"CONFIGURED\""),
        Some("CONFIGURING".to_string())
    );
}

#[test]
fn hardware_address_follows_link_ether() {
    assert_eq!(Interface::get_mac(LISTING), Some("52:54:00:12:34:56".to_string()));
    assert_eq!(Interface::get_mac(DOWN_LISTING), Some("52:54:00:aa:bb:cc".to_string()));
}

#[test]
fn listing_without_link_ether_has_no_hardware_address() {
    assert_eq!(Interface::get_mac("1: lo: <LOOPBACK,UP> mtu 65536\n    link/loopback 00:00:00:00:00:00"), None);
    assert_eq!(Interface::get_mac("2: eth0: link/ether"), None);
    assert_eq!(Interface::get_mac(""), None);
}

#[test]
fn gateway_follows_default_via() {
    let routes = "default via 192.168.1.1 dev eth0 proto dhcp metric 100\n192.168.1.0/24 dev eth0 proto kernel scope link src 192.168.1.50\n";
    assert_eq!(Interface::get_gateway(routes), Some("192.168.1.1".to_string()));
}

#[test]
fn gateway_is_found_on_a_later_line() {
    let routes = "10.0.0.0/24 dev eth0 proto kernel scope link src 10.0.0.5\ndefault via 10.0.0.1 dev eth0\n";
    assert_eq!(Interface::get_gateway(routes), Some("10.0.0.1".to_string()));
}

#[test]
fn first_default_route_gives_the_gateway() {
    let routes = "default via 10.0.0.1 dev eth0 metric 10\ndefault via 10.0.0.2 dev eth0 metric 20\n";
    assert_eq!(Interface::get_gateway(routes), Some("10.0.0.1".to_string()));
}

#[test]
fn listing_without_default_route_has_no_gateway() {
    assert_eq!(Interface::get_gateway(""), None);
    assert_eq!(Interface::get_gateway("10.0.0.0/24 dev eth0 proto kernel scope link src 10.0.0.5\n"), None);
    assert_eq!(Interface::get_gateway("default via"), None);
    assert_eq!(Interface::get_gateway("default dev ppp0 scope link"), None);
}

#[test]
fn up_is_read_from_the_listing() {
    assert!(Interface::is_up(LISTING));
    assert!(!Interface::is_up(DOWN_LISTING));
    assert!(!Interface::is_up(""));
    assert!(!Interface::is_up("U"));
    assert!(Interface::is_up("UP"));
    assert!(Interface::is_up("xxUP"));
}

#[test]
fn text_is_found_anywhere() {
    assert!(find_text("abc", ""));
    assert!(find_text("abc", "bc"));
    assert!(find_text("abc", "abc"));
    assert!(!find_text("abc", "abcd"));
    assert!(!find_text("abc", "ca"));
}

#[test]
fn first_token_is_found() {
    let tokens: Vec<String> = ["a", "alias", "b", "alias"].iter().map(|t| t.to_string()).collect();
    assert_eq!(find_token(&tokens, "alias"), Some(1));
    assert_eq!(find_token(&tokens, "a"), Some(0));
    assert_eq!(find_token(&tokens, "c"), None);
}

#[test]
fn unquote_drops_first_and_last() {
    assert_eq!(unquote("\"CONFIGURED\""), "CONFIGURED");
    assert_eq!(unquote("\"\""), "");
    assert_eq!(unquote("ab"), "");
    assert_eq!(unquote("abc"), "b");
    assert_eq!(unquote(""), "");
}
