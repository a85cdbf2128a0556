use netd::config::interfaceconfig::{GenericInterfaceConfig, InterfaceDhcpConfig, InterfaceMode};
use netd::interface::generic::{generic_configuration, settle, GenericConfiguration, GenericStage, LEASE_SECONDS};
use netd::link::interface::Interface;
use netd::plan::{Action, Command, Error, Failure, Instruction, Outcome, Step};

fn cmd(program: &str, args: &[&str]) -> Action {
    Action::Run(Command { program: program.to_string(), args: args.iter().map(|a| a.to_string()).collect() })
}

fn hook(name: &str) -> Action {
    Action::Hook(format!("/etc/config/network/hooks/{}", name))
}

fn describe(name: &str, tag: &str) -> Action {
    cmd("ip", &["link", "set", "dev", name, "alias", &format!("\"{}\"", tag)])
}

fn ok() -> Outcome {
    Outcome::Finished { success: true, output: String::new() }
}

fn failed() -> Outcome {
    Outcome::Finished { success: false, output: String::new() }
}

fn out(text: &str) -> Outcome {
    Outcome::Finished { success: true, output: text.to_string() }
}

fn static_config(address: Option<&str>, netmask: Option<u8>) -> GenericInterfaceConfig {
    GenericInterfaceConfig {
        mode: InterfaceMode::Static,
        address: address.map(|a| a.to_string()),
        netmask,
        gateway: None,
        do_failover: false,
        dhcp: InterfaceDhcpConfig::default(),
    }
}

fn dhcp_config() -> GenericInterfaceConfig {
    GenericInterfaceConfig {
        mode: InterfaceMode::Dhcp,
        address: None,
        netmask: None,
        gateway: None,
        do_failover: false,
        dhcp: InterfaceDhcpConfig::default(),
    }
}

fn lease_range() -> InterfaceDhcpConfig {
    InterfaceDhcpConfig {
        enabled: true,
        start: "10.0.0.10".to_string(),
        end: "10.0.0.100".to_string(),
        dns: "8.8.8.8".to_string(),
        router: "10.0.0.1".to_string(),
        netmask: "255.255.255.0".to_string(),
    }
}

/// Runs the configuration with success for every action, listings from
/// `listing`, and collects what was handed out.
fn walk(g: &mut GenericConfiguration, outcomes: &[Outcome]) -> Vec<Step> {
    let mut steps = vec![g.start()];
    for outcome in outcomes {
        steps.push(g.advance(outcome));
    }
    steps
}

fn transmissions(steps: &[Step]) -> usize {
    steps.iter().filter(|s| matches!(s, Step::Perform(Action::Transmit { .. }))).count()
}

const ROUTES: &str = "default via 192.168.1.1 dev eth0\n";
const LISTING: &str = "2: eth0: <UP> mtu 1500\n    link/ether 52:54:00:12:34:56 brd ff:ff:ff:ff:ff:ff\n";

#[test]
fn lease_lasts_an_hour() {
    assert_eq!(LEASE_SECONDS, 3600);
}

#[test]
fn static_interface_gets_its_address() {
    let eth0 = Interface::get_from_name("eth0");
    let mut g = GenericConfiguration::with_stem(&static_config(Some("10.0.0.1"), Some(24)), &eth0, "abcde");
    assert_eq!(g.stage(), GenericStage::Idle);
    let steps = walk(&mut g, &[ok(), ok(), ok(), ok()]);
    assert_eq!(
        steps,
        vec![
            Step::Perform(describe("eth0", "CONFIGURING")),
            Step::Perform(cmd("ip", &["addr", "add", "10.0.0.1/24", "dev", "eth0"])),
            Step::Perform(describe("eth0", "CONFIGURED")),
            Step::Perform(hook("post-configure.eth0")),
            Step::Complete,
        ]
    );
    assert_eq!(g.stage(), GenericStage::Done);
    assert!(!g.reclaimed());
    assert_eq!(g.announcements(), 0);
}

#[test]
fn static_interface_without_address_fails_fast() {
    let eth0 = Interface::get_from_name("eth0");
    for cfg in [static_config(None, Some(24)), static_config(Some("10.0.0.1"), None), static_config(None, None)] {
        let mut g = GenericConfiguration::with_stem(&cfg, &eth0, "abcde");
        let steps = walk(&mut g, &[ok()]);
        assert_eq!(
            steps,
            vec![Step::Perform(describe("eth0", "CONFIGURING")), Step::Abort(Error::StaticNeedsAddress("eth0".to_string()))]
        );
        assert_eq!(g.stage(), GenericStage::Failed);
        assert_eq!(g.advance(&ok()), Step::Complete);
    }
}

#[test]
fn static_interface_without_address_plans_no_address_command() {
    let eth0 = Interface::get_from_name("eth0");
    let mut cfg = static_config(None, None);
    cfg.gateway = Some("10.0.0.254".to_string());
    cfg.dhcp = lease_range();
    cfg.do_failover = true;
    let (steps, fault) = settle(&eth0, &cfg, "abcde");
    assert_eq!(fault, Some(Error::StaticNeedsAddress("eth0".to_string())));
    assert_eq!(
        steps,
        vec![Instruction::may(hook("post-failover.eth0")), Instruction::must(describe("eth0", "CONFIGURING"))]
    );
}

#[test]
fn failed_address_is_fatal() {
    let eth0 = Interface::get_from_name("eth0");
    let mut g = GenericConfiguration::with_stem(&static_config(Some("10.0.0.1"), Some(24)), &eth0, "abcde");
    let steps = walk(&mut g, &[ok(), failed()]);
    assert_eq!(steps[2], Step::Abort(Error::Failed(cmd("ip", &["addr", "add", "10.0.0.1/24", "dev", "eth0"]))));
}

#[test]
fn dhcp_interface_runs_a_client_and_goes_on_without_a_lease() {
    let eth0 = Interface::get_from_name("eth0");
    for lease in [ok(), failed()] {
        let mut g = GenericConfiguration::with_stem(&dhcp_config(), &eth0, "abcde");
        let steps = walk(&mut g, &[ok(), lease, ok(), ok()]);
        assert_eq!(
            steps,
            vec![
                Step::Perform(describe("eth0", "CONFIGURING")),
                Step::Perform(cmd("udhcpc", &["-i", "eth0"])),
                Step::Perform(describe("eth0", "CONFIGURED")),
                Step::Perform(hook("post-configure.eth0")),
                Step::Complete,
            ]
        );
    }
}

#[test]
fn gateway_and_server_follow_the_address() {
    let br0 = Interface::get_from_name("br0");
    let mut cfg = static_config(Some("10.0.0.1"), Some(24));
    cfg.gateway = Some("10.0.0.254".to_string());
    cfg.dhcp = lease_range();
    let (steps, fault) = settle(&br0, &cfg, "aB3xY");
    assert_eq!(fault, None);
    let serve = Action::Serve {
        directory: "/tmp/dhcp".to_string(),
        path: "/tmp/dhcp/aB3xY.conf".to_string(),
        contents: "start 10.0.0.10\nend 10.0.0.100\ninterface br0\noption dns 8.8.8.8\noption subnet 255.255.255.0\noption router 10.0.0.1\noption lease 3600".to_string(),
        server: Command { program: "udhcpd".to_string(), args: vec!["/tmp/dhcp/aB3xY.conf".to_string()] },
    };
    assert_eq!(
        steps,
        vec![
            Instruction { action: describe("br0", "CONFIGURING"), on_failure: Failure::Fatal },
            Instruction { action: cmd("ip", &["addr", "add", "10.0.0.1/24", "dev", "br0"]), on_failure: Failure::Fatal },
            Instruction { action: cmd("ip", &["route", "add", "default", "via", "10.0.0.254"]), on_failure: Failure::Fatal },
            Instruction { action: hook("pre-dhcp-server.br0"), on_failure: Failure::Ignored },
            Instruction { action: serve, on_failure: Failure::Ignored },
            Instruction { action: hook("post-dhcp-server.br0"), on_failure: Failure::Ignored },
            Instruction { action: describe("br0", "CONFIGURED"), on_failure: Failure::Fatal },
            Instruction { action: hook("post-configure.br0"), on_failure: Failure::Ignored },
        ]
    );
}

#[test]
fn failed_route_is_fatal() {
    let eth0 = Interface::get_from_name("eth0");
    let mut cfg = dhcp_config();
    cfg.gateway = Some("10.0.0.254".to_string());
    let mut g = GenericConfiguration::with_stem(&cfg, &eth0, "abcde");
    let steps = walk(&mut g, &[ok(), ok(), failed()]);
    assert_eq!(steps[3], Step::Abort(Error::Failed(cmd("ip", &["route", "add", "default", "via", "10.0.0.254"]))));
}

#[test]
fn probe_without_router_configures_once_and_announces_nothing() {
    let eth0 = Interface::get_from_name("eth0");
    let mut cfg = static_config(Some("10.0.0.1"), Some(24));
    cfg.do_failover = true;
    let mut g = GenericConfiguration::with_stem(&cfg, &eth0, "abcde");
    let steps = walk(&mut g, &[ok(), failed(), ok(), ok(), ok(), ok(), ok(), ok(), ok()]);
    assert_eq!(
        steps,
        vec![
            Step::Perform(describe("eth0", "FAILOVER_PROBING")),
            Step::Perform(cmd("udhcpc", &["-i", "eth0", "-n", "-q"])),
            Step::Perform(hook("post-failover.eth0")),
            Step::Perform(describe("eth0", "CONFIGURING")),
            Step::Perform(cmd("ip", &["addr", "add", "10.0.0.1/24", "dev", "eth0"])),
            Step::Perform(describe("eth0", "CONFIGURED")),
            Step::Perform(hook("post-configure.eth0")),
            Step::Complete,
            Step::Complete,
            Step::Complete,
        ]
    );
    assert!(!g.reclaimed());
    assert_eq!(g.announcements(), 0);
    assert_eq!(transmissions(&steps), 0);
    assert_eq!(steps.iter().filter(|s| **s == Step::Perform(describe("eth0", "CONFIGURING"))).count(), 1);
}

#[test]
fn reclaimed_segment_is_announced_three_times() {
    let eth0 = Interface::get_from_name("eth0");
    let mut cfg = dhcp_config();
    cfg.do_failover = true;
    let mut g = GenericConfiguration::with_stem(&cfg, &eth0, "abcde");
    let mut outcomes = vec![ok(), ok(), ok(), out(ROUTES), ok(), ok(), ok(), ok(), failed(), ok()];
    // post-failover hook, CONFIGURING, client without a lease, CONFIGURED, post-configure hook
    outcomes.extend([ok(), ok(), failed(), ok(), ok()]);
    for _ in 0..3 {
        outcomes.extend([out(LISTING), ok(), ok()]);
    }
    outcomes.push(ok());
    let steps = walk(&mut g, &outcomes);
    let ping = Action::Ping { address: "192.168.1.1".to_string(), payload: vec![0; 8] };
    let show = cmd("ip", &["link", "show", "eth0"]);
    let mut frame = vec![0xff; 6];
    frame.extend_from_slice(&[0x52, 0x54, 0x00, 0x12, 0x34, 0x56, 0x08, 0x06, 0, 1, 8, 0, 6, 4, 0, 1]);
    frame.extend_from_slice(&[0x52, 0x54, 0x00, 0x12, 0x34, 0x56, 10, 10, 99, 1]);
    frame.extend_from_slice(&[0xff, 0xff, 0xff, 0xff, 0xff, 0xff, 10, 10, 99, 1]);
    let transmit = Action::Transmit { link: "eth0".to_string(), frame };
    let mut expected = vec![
        Step::Perform(describe("eth0", "FAILOVER_PROBING")),
        Step::Perform(cmd("udhcpc", &["-i", "eth0", "-n", "-q"])),
        Step::Perform(describe("eth0", "FAILOVER_WAITING")),
        Step::Perform(cmd("ip", &["route", "show", "dev", "eth0"])),
        Step::Perform(ping.duplicate()),
        Step::Perform(Action::Sleep(2)),
        Step::Perform(ping.duplicate()),
        Step::Perform(Action::Sleep(2)),
        Step::Perform(ping.duplicate()),
        Step::Perform(cmd("ip", &["addr", "flush", "dev", "eth0"])),
        Step::Perform(hook("post-failover.eth0")),
        Step::Perform(describe("eth0", "CONFIGURING")),
        Step::Perform(cmd("udhcpc", &["-i", "eth0"])),
        Step::Perform(describe("eth0", "CONFIGURED")),
        Step::Perform(hook("post-configure.eth0")),
    ];
    for _ in 0..3 {
        expected.extend([Step::Perform(show.duplicate()), Step::Perform(transmit.duplicate()), Step::Perform(Action::Sleep(1))]);
    }
    expected.push(Step::Perform(hook("post-garp.eth0")));
    expected.push(Step::Complete);
    assert_eq!(steps, expected);
    assert!(g.reclaimed());
    assert_eq!(g.announcements(), 3);
    assert_eq!(g.stage(), GenericStage::Done);
    assert_eq!(transmissions(&steps), 3);
    for (i, step) in steps.iter().enumerate() {
        if let Step::Perform(Action::Transmit { frame, .. }) = step {
            assert_eq!(frame.len(), 42);
            assert_eq!(&frame[12..14], &[0x08, 0x06]);
            assert_eq!(steps[i + 1], Step::Perform(Action::Sleep(1)));
        }
    }
}

#[test]
fn reclaimed_static_interface_without_address_announces_nothing() {
    let eth0 = Interface::get_from_name("eth0");
    let mut cfg = static_config(None, None);
    cfg.do_failover = true;
    let mut g = GenericConfiguration::with_stem(&cfg, &eth0, "abcde");
    let steps = walk(&mut g, &[ok(), ok(), ok(), out(ROUTES), failed(), ok(), ok(), ok(), ok()]);
    assert!(g.reclaimed());
    assert_eq!(steps[8], Step::Abort(Error::StaticNeedsAddress("eth0".to_string())));
    assert_eq!(g.stage(), GenericStage::Failed);
    assert_eq!(transmissions(&steps), 0);
    assert!(!steps.iter().any(|s| matches!(s, Step::Perform(Action::Run(c)) if c.args.starts_with(&["addr".to_string(), "add".to_string()]))));
}

#[test]
fn announcement_without_hardware_address_is_fatal() {
    let eth0 = Interface::get_from_name("eth0");
    let mut cfg = dhcp_config();
    cfg.do_failover = true;
    let mut g = GenericConfiguration::with_stem(&cfg, &eth0, "abcde");
    let mut outcomes = vec![ok(), ok(), ok(), out(ROUTES), failed(), ok()];
    outcomes.extend([ok(), ok(), ok(), ok(), ok()]);
    outcomes.extend([out(LISTING), ok(), ok(), out("2: eth0: <UP>")]);
    let steps = walk(&mut g, &outcomes);
    assert_eq!(steps.last(), Some(&Step::Abort(Error::NoHardwareAddress("eth0".to_string()))));
    assert_eq!(g.announcements(), 1);
    assert_eq!(transmissions(&steps), 1);
    assert_eq!(g.stage(), GenericStage::Failed);
}

#[test]
fn hook_that_cannot_start_is_fatal() {
    let eth0 = Interface::get_from_name("eth0");
    let mut g = GenericConfiguration::with_stem(&dhcp_config(), &eth0, "abcde");
    let steps = walk(&mut g, &[ok(), ok(), ok(), Outcome::Unperformed]);
    assert_eq!(steps[4], Step::Abort(Error::Unperformed(hook("post-configure.eth0"))));
}

#[test]
fn hook_that_fails_stops_nothing() {
    let eth0 = Interface::get_from_name("eth0");
    let mut g = GenericConfiguration::with_stem(&dhcp_config(), &eth0, "abcde");
    let steps = walk(&mut g, &[ok(), ok(), ok(), failed()]);
    assert_eq!(steps[4], Step::Complete);
    assert_eq!(g.stage(), GenericStage::Done);
}

#[test]
fn server_gets_a_random_stem() {
    let br0 = Interface::get_from_name("br0");
    let mut cfg = static_config(Some("10.0.0.1"), Some(24));
    cfg.dhcp = lease_range();
    let mut g = generic_configuration(&cfg, &br0);
    let steps = walk(&mut g, &[ok(), ok(), ok(), ok(), ok(), ok(), ok()]);
    match &steps[3] {
        Step::Perform(Action::Serve { directory, path, contents, server }) => {
            assert_eq!(directory, "/tmp/dhcp");
            assert_eq!(path.len(), "/tmp/dhcp/".len() + 5 + ".conf".len());
            assert!(path.starts_with("/tmp/dhcp/") && path.ends_with(".conf"));
            assert!(path[10..15].chars().all(|c| c.is_ascii_alphanumeric()));
            assert!(contents.starts_with("start 10.0.0.10\nend 10.0.0.100\ninterface br0\n"));
            assert_eq!(server.args, vec![path.clone()]);
        }
        other => panic!("unexpected step {:?}", other),
    }
    assert_eq!(steps.last(), Some(&Step::Complete));
}
