use netd::config::interfaceconfig::{
    BridgeConfig, EthernetConfig, GenericInterfaceConfig, InterfaceConfig, InterfaceDhcpConfig,
    InterfaceMode, InterfaceTypeConfig, SharedInterfaceConfig,
};
use netd::config::Config;
use netd::orchestrator::task::{DependencyWait, InterfaceTask, TaskStage, WaitPhase, POLL_INTERVAL};
use netd::orchestrator::teardown::{reset_interface, undo_renames};
use netd::orchestrator::{configure, prelude, reset, service};
use netd::plan::{Action, Command, Error, Outcome, Script, Step};

fn cmd(program: &str, args: &[&str]) -> Action {
    Action::Run(Command { program: program.to_string(), args: args.iter().map(|a| a.to_string()).collect() })
}

fn show(name: &str) -> Action {
    cmd("ip", &["link", "show", name])
}

fn hook(name: &str) -> Action {
    Action::Hook(format!("/etc/config/network/hooks/{}", name))
}

fn describe(name: &str, tag: &str) -> Action {
    cmd("ip", &["link", "set", "dev", name, "alias", &format!("\"{}\"", tag)])
}

fn ok() -> Outcome {
    Outcome::Finished { success: true, output: String::new() }
}

fn oks(count: usize) -> Vec<Outcome> {
    (0..count).map(|_| ok()).collect()
}

fn failed() -> Outcome {
    Outcome::Finished { success: false, output: String::new() }
}

fn tagged(name: &str, tag: &str) -> Outcome {
    Outcome::Finished {
        success: true,
        output: format!("2: {}: <UP> mtu 1500\n    link/ether 52:54:00:12:34:56 brd ff:ff:ff:ff:ff:ff\n    alias \"{}\"\n", name, tag),
    }
}

fn dhcp() -> GenericInterfaceConfig {
    GenericInterfaceConfig {
        mode: InterfaceMode::Dhcp,
        address: None,
        netmask: None,
        gateway: None,
        do_failover: false,
        dhcp: InterfaceDhcpConfig::default(),
    }
}

fn ethernet(depends: Option<Vec<&str>>, services: Vec<&str>) -> InterfaceConfig {
    InterfaceConfig {
        shared: SharedInterfaceConfig {
            depends: depends.map(|d| d.iter().map(|n| n.to_string()).collect()),
            services: services.iter().map(|n| n.to_string()).collect(),
        },
        specific: InterfaceTypeConfig::Ethernet(EthernetConfig { generic: dhcp() }),
    }
}

fn bridge(members: Vec<&str>, services: Vec<&str>) -> InterfaceConfig {
    InterfaceConfig {
        shared: SharedInterfaceConfig { depends: None, services: services.iter().map(|n| n.to_string()).collect() },
        specific: InterfaceTypeConfig::Bridge(BridgeConfig {
            interfaces: members.iter().map(|n| n.to_string()).collect(),
            generic: dhcp(),
        }),
    }
}

fn walk_script(s: &mut Script, outcomes: &[Outcome]) -> Vec<Step> {
    let mut steps = vec![s.start()];
    for outcome in outcomes {
        steps.push(s.advance(outcome));
    }
    steps
}

fn walk_task(t: &mut InterfaceTask, outcomes: &[Outcome]) -> Vec<Step> {
    let mut steps = vec![t.start()];
    for outcome in outcomes {
        steps.push(t.advance(outcome));
    }
    steps
}

/// A host that knows its interfaces by name: it answers listings and
/// carries out renames, and refuses a name that is taken.
fn host(names: &mut Vec<String>, action: &Action) -> Outcome {
    if let Action::Run(c) = action {
        let args: Vec<&str> = c.args.iter().map(|a| a.as_str()).collect();
        match args.as_slice() {
            ["link", "show", name] => {
                return Outcome::Finished { success: names.iter().any(|n| n == name), output: String::new() };
            }
            ["link", "set", from, "name", to] => {
                let free = !names.iter().any(|n| n == to);
                match names.iter().position(|n| n == from) {
                    Some(i) if free => {
                        names[i] = to.to_string();
                        return ok();
                    }
                    _ => return failed(),
                }
            }
            _ => {}
        }
    }
    ok()
}

fn run_on_host(names: &mut Vec<String>, script: &mut Script) -> Step {
    let mut step = script.start();
    loop {
        match step {
            Step::Perform(action) => {
                let outcome = host(names, &action);
                step = script.advance(&outcome);
            }
            end => return end,
        }
    }
}

fn names(list: &[&str]) -> Vec<String> {
    list.iter().map(|n| n.to_string()).collect()
}

fn renames(pairs: &[(&str, &str)]) -> Config {
    Config { renames: pairs.iter().map(|(a, b)| (a.to_string(), b.to_string())).collect(), interfaces: vec![] }
}

#[test]
fn poll_interval_is_one_second() {
    assert_eq!(POLL_INTERVAL, 1);
}

#[test]
fn no_dependencies_no_wait() {
    let mut w = DependencyWait::new(vec![]);
    assert_eq!(w.start(), Step::Complete);
    assert_eq!(w.phase(), WaitPhase::Done);
    assert!(!w.active());
}

#[test]
fn dependency_is_polled_until_configured() {
    let mut w = DependencyWait::new(vec!["eth0".to_string()]);
    assert_eq!(w.phase(), WaitPhase::Idle);
    assert_eq!(w.start(), Step::Perform(show("eth0")));
    assert_eq!(w.phase(), WaitPhase::Checking);
    assert_eq!(w.advance(&ok()), Step::Perform(show("eth0")));
    assert_eq!(w.phase(), WaitPhase::Polling);
    for tag in ["", "CONFIGURING", "FAILOVER_PROBING", "FAILOVER_WAITING", "CONFIGURE", "CONFIGUREDX", "configured"] {
        assert_eq!(w.advance(&tagged("eth0", tag)), Step::Perform(Action::Sleep(1)), "{}", tag);
        assert_eq!(w.phase(), WaitPhase::Pausing);
        assert_eq!(w.advance(&ok()), Step::Perform(show("eth0")));
        assert_eq!(w.index(), 0);
    }
    assert_eq!(w.advance(&tagged("eth0", "CONFIGURED")), Step::Complete);
    assert_eq!(w.phase(), WaitPhase::Done);
    assert_eq!(w.index(), 1);
}

#[test]
fn pending_dependency_is_named_while_the_wait_pauses() {
    let mut w = DependencyWait::new(vec!["eth0".to_string(), "br0".to_string()]);
    assert_eq!(w.pending(), None);
    w.start();
    assert_eq!(w.pending(), None);
    w.advance(&ok());
    assert_eq!(w.pending(), None);
    w.advance(&tagged("eth0", "CONFIGURING"));
    assert_eq!(w.pending(), Some("eth0".to_string()));
    w.advance(&ok());
    assert_eq!(w.pending(), None);
    w.advance(&tagged("eth0", "CONFIGURED"));
    w.advance(&ok());
    w.advance(&tagged("br0", ""));
    assert_eq!(w.pending(), Some("br0".to_string()));
    let cfg = ethernet(Some(vec!["eth0"]), vec![]);
    let mut t = InterfaceTask::with_stem(&"eth1".to_string(), &cfg, "abcde");
    assert_eq!(t.pending(), None);
    t.start();
    t.advance(&ok());
    t.advance(&tagged("eth0", "FAILOVER_WAITING"));
    assert_eq!(t.pending(), Some("eth0".to_string()));
    t.advance(&ok());
    t.advance(&tagged("eth0", "CONFIGURED"));
    assert_eq!(t.pending(), None);
}

#[test]
fn dependencies_are_waited_for_in_their_order() {
    let mut w = DependencyWait::new(vec!["eth0".to_string(), "br0".to_string()]);
    assert_eq!(w.start(), Step::Perform(show("eth0")));
    assert_eq!(w.advance(&ok()), Step::Perform(show("eth0")));
    assert_eq!(w.advance(&tagged("eth0", "CONFIGURED")), Step::Perform(show("br0")));
    assert_eq!(w.phase(), WaitPhase::Checking);
    assert_eq!(w.index(), 1);
    assert_eq!(w.advance(&ok()), Step::Perform(show("br0")));
    assert_eq!(w.advance(&tagged("br0", "CONFIGURING")), Step::Perform(Action::Sleep(1)));
    assert_eq!(w.advance(&ok()), Step::Perform(show("br0")));
    assert_eq!(w.advance(&tagged("br0", "CONFIGURED")), Step::Complete);
}

#[test]
fn missing_dependency_is_fatal_at_once() {
    let mut w = DependencyWait::new(vec!["eth0".to_string()]);
    w.start();
    assert_eq!(w.advance(&failed()), Step::Abort(Error::MissingInterface("eth0".to_string())));
    assert_eq!(w.phase(), WaitPhase::Failed);
    assert!(!w.active());
    assert_eq!(w.advance(&ok()), Step::Complete);
    assert_eq!(w.index(), 0);
}

#[test]
fn listing_that_ends_at_alias_is_fatal() {
    let mut w = DependencyWait::new(vec!["eth0".to_string()]);
    w.start();
    w.advance(&ok());
    let listing = Outcome::Finished { success: true, output: "2: eth0: <UP> mtu 1500\n    alias".to_string() };
    assert_eq!(w.advance(&listing), Step::Abort(Error::NoDescription("eth0".to_string())));
}

#[test]
fn failed_listing_of_a_dependency_is_fatal() {
    let mut w = DependencyWait::new(vec!["eth0".to_string()]);
    w.start();
    w.advance(&ok());
    let listing = Outcome::Finished {
        success: false,
        output: "2: eth0: <UP> mtu 1500\n    alias \"CONFIGURED\"\n".to_string(),
    };
    assert_eq!(w.advance(&listing), Step::Abort(Error::Failed(show("eth0"))));
    assert_eq!(w.phase(), WaitPhase::Failed);
    assert_eq!(w.index(), 0);
}

#[test]
fn dependency_without_alias_is_waited_for() {
    for name in ["eth0", "xCONFIGURED", "\"CONFIGURED\"", "xCONFIGUREDx"] {
        let mut w = DependencyWait::new(vec![name.to_string()]);
        w.start();
        w.advance(&ok());
        for _ in 0..3 {
            let listing = Outcome::Finished {
                success: true,
                output: format!("7: {}: <BROADCAST,UP> mtu 1500\n    link/ether 52:54:00:12:34:56 brd ff:ff:ff:ff:ff:ff\n", name),
            };
            assert_eq!(w.advance(&listing), Step::Perform(Action::Sleep(1)), "{}", name);
            assert_eq!(w.phase(), WaitPhase::Pausing);
            assert_eq!(w.advance(&ok()), Step::Perform(show(name)));
        }
        assert_eq!(w.index(), 0);
        assert_eq!(w.advance(&tagged(name, "CONFIGURED")), Step::Complete);
    }
}

#[test]
fn task_waits_then_configures_then_starts_services() {
    let cfg = ethernet(Some(vec!["eth0"]), vec!["dnsmasq", "sshd"]);
    let mut t = InterfaceTask::with_stem(&"eth1".to_string(), &cfg, "abcde");
    assert_eq!(t.stage(), TaskStage::Idle);
    let outcomes = vec![
        ok(),
        tagged("eth0", "CONFIGURING"),
        ok(),
        tagged("eth0", "CONFIGURING"),
        ok(),
        tagged("eth0", "CONFIGURED"),
        ok(),
        ok(),
        ok(),
        ok(),
        ok(),
        failed(),
        ok(),
        ok(),
        failed(),
        ok(),
    ];
    let steps = walk_task(&mut t, &outcomes);
    assert_eq!(
        steps,
        vec![
            Step::Perform(show("eth0")),
            Step::Perform(show("eth0")),
            Step::Perform(Action::Sleep(1)),
            Step::Perform(show("eth0")),
            Step::Perform(Action::Sleep(1)),
            Step::Perform(show("eth0")),
            Step::Perform(show("eth1")),
            Step::Perform(hook("pre-up.eth1")),
            Step::Perform(cmd("ip", &["link", "set", "eth1", "up"])),
            Step::Perform(hook("post-up.eth1")),
            Step::Perform(describe("eth1", "CONFIGURING")),
            Step::Perform(cmd("udhcpc", &["-i", "eth1"])),
            Step::Perform(describe("eth1", "CONFIGURED")),
            Step::Perform(hook("post-configure.eth1")),
            Step::Perform(cmd("rc-service", &["dnsmasq", "start"])),
            Step::Perform(cmd("rc-service", &["sshd", "start"])),
            Step::Complete,
        ]
    );
    assert_eq!(t.stage(), TaskStage::Done);
}

#[test]
fn nothing_is_configured_before_the_dependency_is() {
    let cfg = ethernet(Some(vec!["eth0"]), vec![]);
    let mut t = InterfaceTask::with_stem(&"eth1".to_string(), &cfg, "abcde");
    let mut step = t.start();
    assert_eq!(step, Step::Perform(show("eth0")));
    step = t.advance(&ok());
    for _ in 0..25 {
        assert_eq!(step, Step::Perform(show("eth0")));
        assert_eq!(t.stage(), TaskStage::Waiting);
        assert_eq!(t.advance(&tagged("eth0", "CONFIGURING")), Step::Perform(Action::Sleep(1)));
        step = t.advance(&ok());
    }
    assert_eq!(t.advance(&tagged("eth0", "CONFIGURED")), Step::Perform(show("eth1")));
    assert_eq!(t.stage(), TaskStage::Lead);
}

#[test]
fn ethernet_that_is_not_there_is_fatal() {
    let cfg = ethernet(None, vec!["sshd"]);
    let mut t = InterfaceTask::with_stem(&"eth1".to_string(), &cfg, "abcde");
    let steps = walk_task(&mut t, &[failed()]);
    assert_eq!(steps, vec![Step::Perform(show("eth1")), Step::Abort(Error::MissingInterface("eth1".to_string()))]);
    assert_eq!(t.stage(), TaskStage::Failed);
}

#[test]
fn bridge_task_creates_its_link() {
    let cfg = bridge(vec!["eth0"], vec![]);
    let mut t = InterfaceTask::new(&"br0".to_string(), &cfg);
    let steps = walk_task(&mut t, &oks(11));
    assert_eq!(steps[0], Step::Perform(cmd("ip", &["link", "add", "br0", "type", "bridge"])));
    assert_eq!(steps[4], Step::Perform(show("eth0")));
    assert_eq!(steps[7], Step::Perform(describe("br0", "CONFIGURING")));
    assert_eq!(steps[11], Step::Complete);
    assert_eq!(t.stage(), TaskStage::Done);
    assert_eq!(t.configurator().generic().announcements(), 0);
}

#[test]
fn service_that_cannot_be_started_is_fatal_only_if_it_cannot_run() {
    let cfg = ethernet(None, vec!["sshd"]);
    let mut t = InterfaceTask::with_stem(&"eth0".to_string(), &cfg, "abcde");
    let mut outcomes = oks(8);
    outcomes.push(Outcome::Unperformed);
    let steps = walk_task(&mut t, &outcomes);
    assert_eq!(steps[8], Step::Perform(cmd("rc-service", &["sshd", "start"])));
    assert_eq!(steps[9], Step::Abort(Error::Unperformed(cmd("rc-service", &["sshd", "start"]))));
}

#[test]
fn service_calls() {
    assert_eq!(service("sshd", "start"), Command { program: "rc-service".to_string(), args: vec!["sshd".to_string(), "start".to_string()] });
    assert_eq!(service("dnsmasq", "stop"), Command { program: "rc-service".to_string(), args: vec!["dnsmasq".to_string(), "stop".to_string()] });
}

#[test]
fn prelude_renames_then_brings_the_loopback_up() {
    let config = renames(&[("enp1s0", "wan0"), ("enp2s0", "lan0")]);
    let mut p = prelude(&config, false);
    let steps = walk_script(&mut p, &oks(6));
    assert_eq!(
        steps,
        vec![
            Step::Perform(show("enp1s0")),
            Step::Perform(cmd("ip", &["link", "set", "enp1s0", "name", "wan0"])),
            Step::Perform(show("enp2s0")),
            Step::Perform(cmd("ip", &["link", "set", "enp2s0", "name", "lan0"])),
            Step::Perform(show("lo")),
            Step::Perform(cmd("ip", &["link", "set", "lo", "up"])),
            Step::Complete,
        ]
    );
}

#[test]
fn prelude_leaves_the_loopback_alone_when_told() {
    let mut p = prelude(&renames(&[]), true);
    assert_eq!(p.start(), Step::Complete);
    let q = prelude(&renames(&[("a", "b")]), true);
    assert_eq!(q.len(), 2);
}

#[test]
fn missing_rename_source_is_fatal() {
    let mut p = prelude(&renames(&[("enp1s0", "wan0")]), false);
    let steps = walk_script(&mut p, &[failed()]);
    assert_eq!(steps[1], Step::Abort(Error::MissingInterface("enp1s0".to_string())));
}

#[test]
fn missing_loopback_is_fatal() {
    let mut p = prelude(&renames(&[]), false);
    let steps = walk_script(&mut p, &[failed()]);
    assert_eq!(steps, vec![Step::Perform(show("lo")), Step::Abort(Error::MissingInterface("lo".to_string()))]);
}

#[test]
fn renames_are_taken_back_last_first() {
    let config = renames(&[("enp1s0", "wan0"), ("enp2s0", "lan0")]);
    let mut u = undo_renames(&config);
    let steps = walk_script(&mut u, &oks(4));
    assert_eq!(
        steps,
        vec![
            Step::Perform(show("lan0")),
            Step::Perform(cmd("ip", &["link", "set", "lan0", "name", "enp2s0"])),
            Step::Perform(show("wan0")),
            Step::Perform(cmd("ip", &["link", "set", "wan0", "name", "enp1s0"])),
            Step::Complete,
        ]
    );
}

#[test]
fn renamed_interface_that_is_gone_is_left_out() {
    let config = renames(&[("enp1s0", "wan0"), ("enp2s0", "lan0")]);
    let mut u = undo_renames(&config);
    let steps = walk_script(&mut u, &[failed(), ok(), ok()]);
    assert_eq!(
        steps,
        vec![
            Step::Perform(show("lan0")),
            Step::Perform(show("wan0")),
            Step::Perform(cmd("ip", &["link", "set", "wan0", "name", "enp1s0"])),
            Step::Complete,
        ]
    );
    let mut v = undo_renames(&config);
    assert_eq!(walk_script(&mut v, &[failed(), failed()]).last(), Some(&Step::Complete));
}

#[test]
fn renames_round_trip_on_a_host() {
    let cases: Vec<(Vec<&str>, Vec<(&str, &str)>)> = vec![
        (vec!["lo", "enp1s0", "enp2s0"], vec![("enp1s0", "wan0"), ("enp2s0", "lan0")]),
        (vec!["lo", "a"], vec![("a", "b"), ("b", "c"), ("c", "d")]),
        (vec!["a", "b"], vec![("a", "t"), ("b", "a"), ("t", "b")]),
        (vec!["eth0"], vec![]),
        (vec!["x", "y", "z"], vec![("z", "w"), ("x", "z")]),
    ];
    for (before, pairs) in cases {
        let config = renames(&pairs);
        let mut live = names(&before);
        assert_eq!(run_on_host(&mut live, &mut prelude(&config, true)), Step::Complete);
        for (_, to) in &pairs {
            if !pairs.iter().any(|(from, _)| from == to) {
                assert!(live.iter().any(|n| n == to));
            }
        }
        assert_eq!(run_on_host(&mut live, &mut undo_renames(&config)), Step::Complete);
        assert_eq!(live, names(&before));
    }
}

#[test]
fn ethernet_teardown() {
    let cfg = ethernet(None, vec!["dnsmasq", "sshd"]);
    let mut r = reset_interface(&"eth0".to_string(), &cfg);
    let steps = walk_script(&mut r, &[ok(), failed(), ok(), ok(), ok(), ok(), ok(), failed()]);
    assert_eq!(
        steps,
        vec![
            Step::Perform(hook("pre-down.eth0")),
            Step::Perform(cmd("rc-service", &["dnsmasq", "stop"])),
            Step::Perform(cmd("rc-service", &["sshd", "stop"])),
            Step::Perform(show("eth0")),
            Step::Perform(cmd("ip", &["link", "set", "eth0", "down"])),
            Step::Perform(cmd("ip", &["addr", "flush", "dev", "eth0"])),
            Step::Perform(describe("eth0", "")),
            Step::Perform(hook("post-down.eth0")),
            Step::Complete,
        ]
    );
}

#[test]
fn ethernet_that_is_gone_cannot_be_torn_down() {
    let cfg = ethernet(None, vec![]);
    let mut r = reset_interface(&"eth0".to_string(), &cfg);
    let steps = walk_script(&mut r, &[ok(), failed()]);
    assert_eq!(steps[2], Step::Abort(Error::MissingInterface("eth0".to_string())));
}

#[test]
fn bridge_teardown_releases_members_that_are_there() {
    let cfg = bridge(vec!["eth0", "eth1", "eth2"], vec!["dnsmasq"]);
    let mut r = reset_interface(&"br0".to_string(), &cfg);
    let outcomes = vec![ok(), ok(), ok(), ok(), ok(), ok(), failed(), ok(), ok(), ok(), ok(), ok(), ok(), ok(), ok()];
    let steps = walk_script(&mut r, &outcomes);
    assert_eq!(
        steps,
        vec![
            Step::Perform(hook("pre-down.br0")),
            Step::Perform(cmd("rc-service", &["dnsmasq", "stop"])),
            Step::Perform(show("br0")),
            Step::Perform(show("eth0")),
            Step::Perform(cmd("ip", &["link", "set", "dev", "eth0", "nomaster"])),
            Step::Perform(cmd("ip", &["link", "set", "eth0", "down"])),
            Step::Perform(show("eth1")),
            Step::Perform(show("eth2")),
            Step::Perform(cmd("ip", &["link", "set", "dev", "eth2", "nomaster"])),
            Step::Perform(cmd("ip", &["link", "set", "eth2", "down"])),
            Step::Perform(cmd("ip", &["link", "set", "br0", "down"])),
            Step::Perform(cmd("ip", &["addr", "flush", "dev", "br0"])),
            Step::Perform(describe("br0", "")),
            Step::Perform(cmd("ip", &["link", "delete", "dev", "br0"])),
            Step::Perform(hook("post-down.br0")),
            Step::Complete,
        ]
    );
}

#[test]
fn teardown_of_an_absent_bridge_is_quiet_every_time() {
    let cfg = bridge(vec!["eth0", "eth1"], vec!["dnsmasq"]);
    for _ in 0..2 {
        let mut r = reset_interface(&"br0".to_string(), &cfg);
        let steps = walk_script(&mut r, &[ok(), failed(), failed()]);
        assert_eq!(
            steps,
            vec![
                Step::Perform(hook("pre-down.br0")),
                Step::Perform(cmd("rc-service", &["dnsmasq", "stop"])),
                Step::Perform(show("br0")),
                Step::Complete,
            ]
        );
        assert!(r.ended());
    }
}

#[test]
fn last_member_that_is_gone_is_left_out() {
    let cfg = bridge(vec!["eth0"], vec![]);
    let mut r = reset_interface(&"br0".to_string(), &cfg);
    let steps = walk_script(&mut r, &[ok(), ok(), failed()]);
    assert_eq!(steps[3], Step::Perform(cmd("ip", &["link", "set", "br0", "down"])));
}

#[test]
fn passes_hold_one_task_for_each_interface() {
    let config = Config {
        renames: vec![("enp1s0".to_string(), "eth0".to_string())],
        interfaces: vec![
            ("eth0".to_string(), ethernet(None, vec![])),
            ("br0".to_string(), bridge(vec!["eth0"], vec!["dnsmasq"])),
        ],
    };
    let mut pass = configure(&config, false);
    assert_eq!(pass.prelude.len(), 4);
    assert_eq!(pass.tasks.len(), 2);
    assert_eq!(pass.tasks[0].start(), Step::Perform(show("eth0")));
    assert_eq!(pass.tasks[1].start(), Step::Perform(cmd("ip", &["link", "add", "br0", "type", "bridge"])));
    let mut down = reset(&config);
    assert_eq!(down.tasks.len(), 2);
    assert_eq!(down.tasks[0].start(), Step::Perform(hook("pre-down.eth0")));
    assert_eq!(down.tasks[1].start(), Step::Perform(hook("pre-down.br0")));
    assert_eq!(down.tasks[1].len(), 11);
    assert_eq!(down.renames.start(), Step::Perform(show("eth0")));
    assert_eq!(down.renames.advance(&ok()), Step::Perform(cmd("ip", &["link", "set", "eth0", "name", "enp1s0"])));
}

#[test]
fn empty_config_has_nothing_to_do() {
    let config = Config { renames: vec![], interfaces: vec![] };
    let mut pass = configure(&config, true);
    assert_eq!(pass.prelude.start(), Step::Complete);
    assert!(pass.tasks.is_empty());
    let mut down = reset(&config);
    assert!(down.tasks.is_empty());
    assert_eq!(down.renames.start(), Step::Complete);
}
