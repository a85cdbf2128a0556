//! The configuration that every kind of interface goes through once its
//! link is up: failover, addressing, route, DHCP server, announcements.
use crate::config::interfaceconfig::{GenericInterfaceConfig, InterfaceDhcpConfig, InterfaceMode};
use crate::hooks::{hook_action, interface_hook};
use crate::interface::failover::{failover, Failover, FailoverStage, FailoverView};
use crate::arp::gratuitous_frame;
use crate::interface::garp::{Announcer, AnnouncerView, ANNOUNCEMENTS, ANNOUNCEMENT_INTERVAL};
use crate::link::dhcpc::{client_command, dhcp_client};
use crate::link::dhcpd::{
    generate_random_string, is_stem, launch_action, DHCPServer, DHCPServerView,
};
use crate::link::interface::{
    add_address_command, describe_command, flush_command, routes_command, show_command, Interface,
};
use crate::link::routing::{add_route_via, route_command};
use crate::plan::{
    instructions, may, must, push_instruction, silent, Action, ActionView, CommandView, Error,
    ErrorView, Instruction, InstructionView, Outcome, Script, ScriptView, Step, StepView,
};
use vstd::prelude::*;
use vstd::string::*;

verus! {

/// The seconds of a lease.
pub const LEASE_SECONDS: u16 = 3600;

/// The instruction that gives the interface its address: a DHCP client
/// that stays in the background and whose failure stops nothing, or the
/// static address with its prefix length, which must be accepted.
pub open spec fn addressing(name: Seq<char>, cfg: GenericInterfaceConfig) -> InstructionView
    recommends
        cfg.complete(),
{
    match cfg.mode {
        InterfaceMode::Dhcp => may(ActionView::Run(client_command(name, false))),
        InterfaceMode::Static => must(
            ActionView::Run(add_address_command(name, cfg.address->0@, cfg.netmask->0)),
        ),
    }
}

/// The default route through the configured gateway, if one is
/// configured.
pub open spec fn routing(cfg: GenericInterfaceConfig) -> Seq<InstructionView> {
    match cfg.gateway {
        Some(gateway) => seq![must(ActionView::Run(route_command(gateway@, "default"@)))],
        None => Seq::empty(),
    }
}

/// The DHCP server that `dhcp` asks for on the interface `name`.
pub open spec fn server_of(name: Seq<char>, dhcp: InterfaceDhcpConfig) -> DHCPServerView {
    DHCPServerView {
        start: dhcp.start@,
        end: dhcp.end@,
        interface: name,
        dns: dhcp.dns@,
        netmask: dhcp.netmask@,
        router: dhcp.router@,
        lease: LEASE_SECONDS,
    }
}

/// The launch of the DHCP server between its two hooks, if a server is
/// enabled.
pub open spec fn serving(name: Seq<char>, cfg: GenericInterfaceConfig, stem: Seq<char>) -> Seq<
    InstructionView,
> {
    if cfg.dhcp.enabled {
        seq![
            may(hook_action("pre-dhcp-server"@, name)),
            may(launch_action(server_of(name, cfg.dhcp), stem)),
            may(hook_action("post-dhcp-server"@, name)),
        ]
    } else {
        Seq::empty()
    }
}

/// The instructions from the end of failover to the description
/// `CONFIGURED` and its hook. Where a static interface lacks its address
/// or its prefix length they end after the description `CONFIGURING`:
/// nothing is done to the addresses of such an interface.
pub open spec fn settle_steps(name: Seq<char>, cfg: GenericInterfaceConfig, stem: Seq<char>) -> Seq<
    InstructionView,
> {
    let opening = if cfg.do_failover {
        seq![may(hook_action("post-failover"@, name))]
    } else {
        Seq::empty()
    };
    let marked = opening.push(must(ActionView::Run(describe_command(name, "CONFIGURING"@))));
    if cfg.complete() {
        marked.push(addressing(name, cfg)) + routing(cfg) + serving(name, cfg, stem) + seq![
            must(ActionView::Run(describe_command(name, "CONFIGURED"@))),
            may(hook_action("post-configure"@, name)),
        ]
    } else {
        marked
    }
}

/// The fatal condition that the instructions end in: a static interface
/// without its address or its prefix length.
pub open spec fn settle_fault(name: Seq<char>, cfg: GenericInterfaceConfig) -> Option<ErrorView> {
    if cfg.complete() {
        None
    } else {
        Some(ErrorView::StaticNeedsAddress(name))
    }
}

/// Where the configuration stands.
#[derive(Clone, Copy, Debug, PartialEq, Eq)]
pub enum GenericStage {
    /// Not started.
    Idle,
    /// In the failover protocol.
    Failover,
    /// In the instructions from `CONFIGURING` to `CONFIGURED`.
    Settle,
    /// In the gratuitous announcements.
    Announce,
    /// In the hook that follows the announcements.
    Hook,
    /// Ended.
    Done,
    /// Stopped on a fatal condition.
    Failed,
}

/// What a `GenericConfiguration` stands for in contracts, with its texts and lists as
/// sequences.
pub ghost struct GenericView {
    /// The interface.
    pub name: Seq<char>,
    /// Whether the failover protocol is asked for.
    pub guarded: bool,
    pub failover: FailoverView,
    pub settle: ScriptView,
    /// The fatal condition at the end of `settle`, if any.
    pub fault: Option<ErrorView>,
    pub announcer: AnnouncerView,
    pub stage: GenericStage,
}

impl GenericView {
    /// The configuration of the interface `name` as `cfg` declares it, not
    /// yet started. `stem` names the lease file of its DHCP server.
    pub open spec fn initial(name: Seq<char>, cfg: GenericInterfaceConfig, stem: Seq<char>)
        -> GenericView {
        GenericView {
            name,
            guarded: cfg.do_failover,
            failover: FailoverView::initial(name),
            settle: ScriptView { steps: settle_steps(name, cfg, stem), cursor: 0 },
            fault: settle_fault(name, cfg),
            announcer: AnnouncerView::initial(name),
            stage: GenericStage::Idle,
        }
    }

    /// Whether an outcome is awaited.
    pub open spec fn active(self) -> bool {
        self.stage is Failover || self.stage is Settle || self.stage is Announce
            || self.stage is Hook
    }

    /// The configuration at its end.
    pub open spec fn finish(self) -> (GenericView, StepView) {
        (GenericView { stage: GenericStage::Done, ..self }, StepView::Complete)
    }

    /// The configuration stopped by `error`.
    pub open spec fn stop(self, error: ErrorView) -> (GenericView, StepView) {
        (GenericView { stage: GenericStage::Failed, ..self }, StepView::Abort(error))
    }

    /// What follows a step of the failover protocol: at its end the
    /// instructions begin.
    pub open spec fn after_failover(self, step: StepView) -> (GenericView, StepView) {
        match step {
            StepView::Perform(action) => (
                GenericView { stage: GenericStage::Failover, ..self },
                StepView::Perform(action),
            ),
            StepView::Abort(error) => self.stop(error),
            StepView::Complete => self.enter_settle(),
        }
    }

    /// The start of the instructions.
    pub open spec fn enter_settle(self) -> (GenericView, StepView) {
        let (settle, step) = self.settle.start();
        GenericView { settle, ..self }.after_settle(step)
    }

    /// What follows a step of the instructions: at their end the fault, if
    /// there is one; else the announcements, if the segment was reclaimed;
    /// else nothing.
    pub open spec fn after_settle(self, step: StepView) -> (GenericView, StepView) {
        match step {
            StepView::Perform(action) => (
                GenericView { stage: GenericStage::Settle, ..self },
                StepView::Perform(action),
            ),
            StepView::Abort(error) => self.stop(error),
            StepView::Complete => match self.fault {
                Some(error) => self.stop(error),
                None => if self.failover.reclaimed {
                    let (announcer, step) = self.announcer.start();
                    GenericView { announcer, ..self }.after_announce(step)
                } else {
                    self.finish()
                },
            },
        }
    }

    /// What follows a step of the announcements: at their end, their hook.
    pub open spec fn after_announce(self, step: StepView) -> (GenericView, StepView) {
        match step {
            StepView::Perform(action) => (
                GenericView { stage: GenericStage::Announce, ..self },
                StepView::Perform(action),
            ),
            StepView::Abort(error) => self.stop(error),
            StepView::Complete => (
                GenericView { stage: GenericStage::Hook, ..self },
                StepView::Perform(hook_action("post-garp"@, self.name)),
            ),
        }
    }

    /// The first step: of the failover protocol where it is asked for,
    /// else of the instructions.
    pub open spec fn start(self) -> (GenericView, StepView) {
        if self.guarded {
            let (failover, step) = self.failover.start();
            GenericView { failover, ..self }.after_failover(step)
        } else {
            self.enter_settle()
        }
    }

    /// The step after `outcome`.
    pub open spec fn advance(self, outcome: Outcome) -> (GenericView, StepView) {
        match self.stage {
            GenericStage::Failover => {
                let (failover, step) = self.failover.advance(outcome);
                GenericView { failover, ..self }.after_failover(step)
            },
            GenericStage::Settle => {
                let (settle, step) = self.settle.advance(outcome);
                GenericView { settle, ..self }.after_settle(step)
            },
            GenericStage::Announce => {
                let (announcer, step) = self.announcer.advance(outcome);
                GenericView { announcer, ..self }.after_announce(step)
            },
            GenericStage::Hook => match outcome {
                Outcome::Unperformed => self.stop(
                    ErrorView::Unperformed(hook_action("post-garp"@, self.name)),
                ),
                Outcome::Finished { .. } => self.finish(),
            },
            _ => (self, StepView::Complete),
        }
    }
}

/// The instructions from the end of failover to `CONFIGURED`, with the
/// fatal condition that they end in.
pub fn settle(interface: &Interface, ifconfig: &GenericInterfaceConfig, stem: &str) -> (r: (
    Vec<Instruction>,
    Option<Error>,
))
    ensures
        instructions(r.0@) == settle_steps(interface.name@, *ifconfig, stem@),
        match r.1 {
            Some(error) => settle_fault(interface.name@, *ifconfig) == Some(error@),
            None => settle_fault(interface.name@, *ifconfig).is_none(),
        },
{
    let name = interface.name.as_str();
    let mut steps: Vec<Instruction> = Vec::new();
    assert(instructions(steps@) =~= Seq::<InstructionView>::empty());
    if ifconfig.do_failover {
        push_instruction(&mut steps, Instruction::may(interface_hook("post-failover", name)));
    }
    push_instruction(
        &mut steps,
        Instruction::must(Action::Run(interface.set_description("CONFIGURING"))),
    );
    let ghost marked = instructions(steps@);
    if !ifconfig.is_complete() {
        return (steps, Some(Error::StaticNeedsAddress(interface.name.clone())));
    }
    match (&ifconfig.mode, &ifconfig.address, &ifconfig.netmask) {
        (InterfaceMode::Static, Some(address), Some(netmask)) => {
            push_instruction(
                &mut steps,
                Instruction::must(Action::Run(interface.add_address(address.as_str(), *netmask))),
            );
        },
        _ => {
            push_instruction(
                &mut steps,
                Instruction::may(Action::Run(dhcp_client(interface, false))),
            );
        },
    }
    assert(instructions(steps@) == marked.push(addressing(interface.name@, *ifconfig)));
    match &ifconfig.gateway {
        Some(gateway) => {
            push_instruction(
                &mut steps,
                Instruction::must(Action::Run(add_route_via(gateway.as_str(), "default"))),
            );
        },
        None => {},
    }
    assert(instructions(steps@) =~= marked.push(addressing(interface.name@, *ifconfig)) + routing(
        *ifconfig,
    ));
    if ifconfig.dhcp.enabled {
        let server = DHCPServer::new(
            ifconfig.dhcp.start.clone(),
            ifconfig.dhcp.end.clone(),
            interface.name.clone(),
            ifconfig.dhcp.dns.clone(),
            ifconfig.dhcp.netmask.clone(),
            ifconfig.dhcp.router.clone(),
            LEASE_SECONDS,
        );
        push_instruction(&mut steps, Instruction::may(interface_hook("pre-dhcp-server", name)));
        push_instruction(&mut steps, Instruction::may(server.launch(stem)));
        push_instruction(&mut steps, Instruction::may(interface_hook("post-dhcp-server", name)));
    }
    assert(instructions(steps@) =~= marked.push(addressing(interface.name@, *ifconfig)) + routing(
        *ifconfig,
    ) + serving(interface.name@, *ifconfig, stem@));
    push_instruction(
        &mut steps,
        Instruction::must(Action::Run(interface.set_description("CONFIGURED"))),
    );
    push_instruction(&mut steps, Instruction::may(interface_hook("post-configure", name)));
    assert(instructions(steps@) =~= settle_steps(interface.name@, *ifconfig, stem@));
    (steps, None)
}

/// The generic configuration of one interface.
pub struct GenericConfiguration {
    interface: Interface,
    guarded: bool,
    failover: Failover,
    settle: Script,
    fault: Option<Error>,
    announcer: Announcer,
    stage: GenericStage,
}

impl View for GenericConfiguration {
    type V = GenericView;

    closed spec fn view(&self) -> GenericView {
        GenericView {
            name: self.interface.name@,
            guarded: self.guarded,
            failover: self.failover@,
            settle: self.settle@,
            fault: match self.fault {
                Some(error) => Some(error@),
                None => None,
            },
            announcer: self.announcer@,
            stage: self.stage,
        }
    }
}

/// The configuration of `interface` as `ifconfig` declares it, not yet
/// started. The lease file of its DHCP server gets a stem of five
/// characters drawn at random.
pub fn generic_configuration(ifconfig: &GenericInterfaceConfig, interface: &Interface) -> (r:
    GenericConfiguration)
    ensures
        exists|stem: Seq<char>|
            is_stem(stem, 5) && r@ == GenericView::initial(interface.name@, *ifconfig, stem),
{
    let stem = generate_random_string(5);
    GenericConfiguration::with_stem(ifconfig, interface, stem.as_str())
}

impl GenericConfiguration {
    /// The configuration of `interface` as `ifconfig` declares it, not yet
    /// started, with `stem` for the lease file of its DHCP server.
    pub fn with_stem(ifconfig: &GenericInterfaceConfig, interface: &Interface, stem: &str) -> (r:
        GenericConfiguration)
        ensures
            r@ == GenericView::initial(interface.name@, *ifconfig, stem@),
    {
        let (steps, fault) = settle(interface, ifconfig, stem);
        GenericConfiguration {
            interface: Interface { name: interface.name.clone() },
            guarded: ifconfig.do_failover,
            failover: failover(interface, &interface.name),
            settle: Script::new(steps),
            fault,
            announcer: Announcer::new(interface),
            stage: GenericStage::Idle,
        }
    }

    /// Where the configuration stands.
    pub fn stage(&self) -> (r: GenericStage)
        ensures
            r == self@.stage,
    {
        self.stage
    }

    /// Whether failover reclaimed the segment.
    pub fn reclaimed(&self) -> (r: bool)
        ensures
            r == self@.failover.reclaimed,
    {
        self.failover.reclaimed()
    }

    /// The number of gratuitous announcements handed out so far.
    pub fn announcements(&self) -> (r: u8)
        ensures
            r == self@.announcer.sent,
    {
        self.announcer.sent()
    }

    fn finish(&mut self) -> (step: Step)
        ensures
            (final(self)@, step@) == old(self)@.finish(),
    {
        self.stage = GenericStage::Done;
        Step::Complete
    }

    fn stop(&mut self, error: Error) -> (step: Step)
        ensures
            (final(self)@, step@) == old(self)@.stop(error@),
    {
        self.stage = GenericStage::Failed;
        Step::Abort(error)
    }

    fn after_failover(&mut self, step: Step) -> (next: Step)
        ensures
            (final(self)@, next@) == old(self)@.after_failover(step@),
    {
        match step {
            Step::Perform(action) => {
                self.stage = GenericStage::Failover;
                Step::Perform(action)
            },
            Step::Abort(error) => self.stop(error),
            Step::Complete => self.enter_settle(),
        }
    }

    fn enter_settle(&mut self) -> (next: Step)
        ensures
            (final(self)@, next@) == old(self)@.enter_settle(),
    {
        let step = self.settle.start();
        self.after_settle(step)
    }

    fn after_settle(&mut self, step: Step) -> (next: Step)
        ensures
            (final(self)@, next@) == old(self)@.after_settle(step@),
    {
        match step {
            Step::Perform(action) => {
                self.stage = GenericStage::Settle;
                Step::Perform(action)
            },
            Step::Abort(error) => self.stop(error),
            Step::Complete => {
                let fault = self.fault.take();
                match fault {
                    Some(error) => {
                        let step = Step::Abort(error.duplicate());
                        self.fault = Some(error);
                        self.stage = GenericStage::Failed;
                        step
                    },
                    None => {
                        if self.failover.reclaimed() {
                            let step = self.announcer.start();
                            self.after_announce(step)
                        } else {
                            self.finish()
                        }
                    },
                }
            },
        }
    }

    fn after_announce(&mut self, step: Step) -> (next: Step)
        ensures
            (final(self)@, next@) == old(self)@.after_announce(step@),
    {
        match step {
            Step::Perform(action) => {
                self.stage = GenericStage::Announce;
                Step::Perform(action)
            },
            Step::Abort(error) => self.stop(error),
            Step::Complete => {
                self.stage = GenericStage::Hook;
                Step::Perform(interface_hook("post-garp", self.interface.name.as_str()))
            },
        }
    }

    /// Starts the configuration and hands out its first action.
    pub fn start(&mut self) -> (step: Step)
        ensures
            (final(self)@, step@) == old(self)@.start(),
    {
        if self.guarded {
            let step = self.failover.start();
            self.after_failover(step)
        } else {
            self.enter_settle()
        }
    }

    /// Takes the outcome of the awaited action and hands out what follows.
    /// Where no action is awaited, before the start or after the end, it
    /// hands out `Complete` and changes nothing.
    pub fn advance(&mut self, outcome: &Outcome) -> (step: Step)
        ensures
            (final(self)@, step@) == old(self)@.advance(*outcome),
    {
        match self.stage {
            GenericStage::Failover => {
                let step = self.failover.advance(outcome);
                self.after_failover(step)
            },
            GenericStage::Settle => {
                let step = self.settle.advance(outcome);
                self.after_settle(step)
            },
            GenericStage::Announce => {
                let step = self.announcer.advance(outcome);
                self.after_announce(step)
            },
            GenericStage::Hook => {
                match outcome {
                    Outcome::Unperformed => {
                        let action = interface_hook("post-garp", self.interface.name.as_str());
                        self.stop(Error::Unperformed(action))
                    },
                    Outcome::Finished { .. } => self.finish(),
                }
            },
            _ => Step::Complete,
        }
    }
}

/// Whether `step` hands out a frame for transmission.
pub open spec fn is_transmission(step: StepView) -> bool {
    step matches StepView::Perform(action) && action is Transmit
}

/// The number of frames handed out for transmission among `steps`.
pub open spec fn transmissions(steps: Seq<StepView>) -> nat
    decreases steps.len(),
{
    if steps.len() == 0 {
        0
    } else {
        transmissions(steps.drop_last()) + if is_transmission(steps.last()) {
            1nat
        } else {
            0nat
        }
    }
}

/// Whether `step` hands out the gratuitous announcement of some station on
/// the link `name`.
pub open spec fn is_announcement(step: StepView, name: Seq<char>) -> bool {
    exists|mac: Seq<u8>|
        mac.len() == 6 && step == StepView::Perform(
            ActionView::Transmit { link: name, frame: gratuitous_frame(mac) },
        )
}

impl GenericView {
    /// The configuration after `start` and one `advance` for each of
    /// `outcomes`, with the steps that were handed out on the way: the
    /// first by `start`, and one for each outcome.
    pub open spec fn run(self, outcomes: Seq<Outcome>) -> (GenericView, Seq<StepView>)
        decreases outcomes.len(),
    {
        if outcomes.len() == 0 {
            let (next, step) = self.start();
            (next, seq![step])
        } else {
            let (before, steps) = self.run(outcomes.drop_last());
            let (next, step) = before.advance(outcomes.last());
            (next, steps.push(step))
        }
    }
}

proof fn lemma_settle_silent(name: Seq<char>, cfg: GenericInterfaceConfig, stem: Seq<char>)
    ensures
        silent(settle_steps(name, cfg, stem)),
        settle_steps(name, cfg, stem).len() > 0,
{
    let opening = if cfg.do_failover {
        seq![may(hook_action("post-failover"@, name))]
    } else {
        Seq::empty()
    };
    let marked = opening.push(must(ActionView::Run(describe_command(name, "CONFIGURING"@))));
    assert(silent(marked));
    if cfg.complete() {
        let a = marked.push(addressing(name, cfg));
        assert(silent(a));
        let b = a + routing(cfg);
        assert(silent(b));
        let c = b + serving(name, cfg, stem);
        assert(silent(c));
    }
}

/// The state of the announcer fits its stage.
spec fn announcer_sound(a: AnnouncerView) -> bool {
    &&& a.sent <= 3
    &&& a.stage is Idle ==> a.sent == 0
    &&& a.stage is Reading ==> a.sent < 3
    &&& a.stage is Sending ==> a.sent >= 1 && exists|mac: Seq<u8>|
        mac.len() == 6 && a.frame == gratuitous_frame(mac)
    &&& a.stage is Pausing ==> a.sent >= 1
    &&& a.stage is Done ==> a.sent == 3
}

/// What holds of every configuration that was started as `init` and
/// advanced from there: its fixed parts are those of `init`, and the count
/// of its announcer fits its stage.
pub closed spec fn sound(g: GenericView, init: GenericView) -> bool {
    &&& g.name == init.name
    &&& g.guarded == init.guarded
    &&& g.settle.steps == init.settle.steps
    &&& g.fault == init.fault
    &&& g.announcer.name == init.name
    &&& g.failover.name == init.name
    &&& silent(g.settle.steps)
    &&& g.announcer.sent <= 3
    &&& g.announcer.sent > 0 ==> g.failover.reclaimed
    &&& !g.guarded ==> g.failover == init.failover
    &&& (g.stage is Idle || g.stage is Failover || g.stage is Settle) ==> g.announcer.stage is Idle
        && g.announcer.sent == 0
    &&& g.stage is Settle ==> g.settle.cursor < g.settle.steps.len()
    &&& g.stage is Announce ==> g.failover.reclaimed && announcer_sound(g.announcer)
        && g.announcer.active()
    &&& g.stage is Hook ==> g.failover.reclaimed && g.announcer.sent == 3
    &&& g.stage is Done ==> g.announcer.sent == if g.failover.reclaimed {
        3nat
    } else {
        0nat
    }
}

/// Whether a frame is awaited on the wire.
pub open spec fn sending(g: GenericView) -> bool {
    g.stage is Announce && g.announcer.stage is Sending
}

/// What `sound` says of the count of the announcer.
pub proof fn lemma_sound_count(g: GenericView, init: GenericView)
    requires
        sound(g, init),
    ensures
        g.announcer.sent <= ANNOUNCEMENTS,
        g.announcer.sent > 0 ==> g.failover.reclaimed,
        g.stage is Done && g.failover.reclaimed ==> g.announcer.sent == ANNOUNCEMENTS,
        g.stage is Idle ==> g.announcer.sent == 0 && !sending(g),
{
}

/// A configuration that was not started yet is sound, and so is it once
/// started; its first step hands out no frame.
pub proof fn lemma_sound_start(name: Seq<char>, cfg: GenericInterfaceConfig, stem: Seq<char>)
    ensures
        ({
            let init = GenericView::initial(name, cfg, stem);
            let (g, step) = init.start();
            &&& sound(init, init)
            &&& sound(g, init)
            &&& !is_transmission(step)
            &&& !sending(g)
            &&& g.announcer.sent == 0
            &&& step is Perform ==> g.active()
            &&& step is Complete ==> g.stage is Done
        }),
{
    lemma_settle_silent(name, cfg, stem);
    let init = GenericView::initial(name, cfg, stem);
    let (g, step) = init.start();
    let steps = init.settle.steps;
    assert(!(steps[0].action is Transmit));
}

/// One step of a sound configuration: it stays sound; it hands out a frame
/// exactly when a frame is then awaited on the wire, that frame is a
/// gratuitous announcement on the link of the interface, and the announcer
/// counts it; and the step after a frame that was put on the wire is the
/// pause of a second.
pub proof fn lemma_sound_advance(
    g: GenericView,
    name: Seq<char>,
    cfg: GenericInterfaceConfig,
    stem: Seq<char>,
    outcome: Outcome,
)
    requires
        sound(g, GenericView::initial(name, cfg, stem)),
    ensures
        ({
            let (next, step) = g.advance(outcome);
            &&& sound(next, GenericView::initial(name, cfg, stem))
            &&& is_transmission(step) <==> sending(next)
            &&& is_transmission(step) ==> is_announcement(step, name)
            &&& next.announcer.sent == g.announcer.sent + if is_transmission(step) {
                1nat
            } else {
                0nat
            }
            &&& sending(g) && outcome is Finished ==> step == StepView::Perform(
                ActionView::Sleep(ANNOUNCEMENT_INTERVAL),
            )
            &&& !g.active() ==> next == g
            &&& g.active() && step is Perform ==> next.active()
            &&& g.active() && step is Complete ==> next.stage is Done
        }),
{
    lemma_advance_sound(g, GenericView::initial(name, cfg, stem), outcome);
}

proof fn lemma_advance_sound(g: GenericView, init: GenericView, outcome: Outcome)
    requires
        sound(g, init),
        init.stage is Idle,
        init.failover == FailoverView::initial(init.name),
    ensures
        ({
            let (next, step) = g.advance(outcome);
            &&& sound(next, init)
            &&& is_transmission(step) <==> sending(next)
            &&& is_transmission(step) ==> is_announcement(step, init.name)
            &&& next.announcer.sent == g.announcer.sent + if is_transmission(step) {
                1nat
            } else {
                0nat
            }
            &&& sending(g) && outcome is Finished ==> step == StepView::Perform(
                ActionView::Sleep(ANNOUNCEMENT_INTERVAL),
            )
        }),
{
    let (next, step) = g.advance(outcome);
    match g.stage {
        GenericStage::Failover => {
            let (failover, inner) = g.failover.advance(outcome);
            if inner is Complete {
                if g.settle.steps.len() > 0 {
                    assert(!(g.settle.steps[0].action is Transmit));
                }
            }
        },
        GenericStage::Settle => {
            let (settle, inner) = g.settle.advance(outcome);
            if inner is Perform {
                assert(!(settle.steps[settle.cursor as int].action is Transmit));
            }
        },
        GenericStage::Announce => {
            let (announcer, inner) = g.announcer.advance(outcome);
            if is_transmission(step) {
                assert(announcer.stage is Sending);
                let mac = choose|mac: Seq<u8>|
                    mac.len() == 6 && announcer.frame == gratuitous_frame(mac);
                assert(step == StepView::Perform(
                    ActionView::Transmit { link: init.name, frame: gratuitous_frame(mac) },
                ));
            }
        },
        _ => {},
    }
}

/// Failover and announcements over a whole run, whatever the outcomes.
///
/// Of the configuration of an interface, started and then advanced once for
/// each of `outcomes`:
/// - the frames handed out for transmission are as many as the announcer
///   counts, and never more than three;
/// - none is handed out unless failover reclaimed the segment: a probe that
///   finds no router is followed by the plain configuration alone;
/// - a configuration that reclaimed the segment and came to its end handed
///   out exactly three;
/// - each of them is the gratuitous announcement of a six-byte station on
///   the link of the interface;
/// - after each that was put on the wire, the next step is the pause of a
///   second.
pub proof fn lemma_announcements(
    name: Seq<char>,
    cfg: GenericInterfaceConfig,
    stem: Seq<char>,
    outcomes: Seq<Outcome>,
)
    ensures
        ({
            let (g, steps) = GenericView::initial(name, cfg, stem).run(outcomes);
            &&& steps.len() == outcomes.len() + 1
            &&& transmissions(steps) == g.announcer.sent
            &&& transmissions(steps) <= ANNOUNCEMENTS
            &&& !g.failover.reclaimed ==> transmissions(steps) == 0
            &&& g.stage is Done && g.failover.reclaimed ==> transmissions(steps) == ANNOUNCEMENTS
            &&& forall|i: int|
                0 <= i < steps.len() && is_transmission(#[trigger] steps[i]) ==> is_announcement(
                    steps[i],
                    name,
                )
            &&& forall|i: int|
                0 <= i < outcomes.len() && is_transmission(steps[i]) && outcomes[i] is Finished
                    ==> #[trigger] steps[i + 1] == StepView::Perform(
                    ActionView::Sleep(ANNOUNCEMENT_INTERVAL),
                )
        }),
{
    lemma_run_sound(name, cfg, stem, outcomes);
}

proof fn lemma_run_sound(
    name: Seq<char>,
    cfg: GenericInterfaceConfig,
    stem: Seq<char>,
    outcomes: Seq<Outcome>,
)
    ensures
        ({
            let init = GenericView::initial(name, cfg, stem);
            let (g, steps) = init.run(outcomes);
            &&& sound(g, init)
            &&& steps.len() == outcomes.len() + 1
            &&& transmissions(steps) == g.announcer.sent
            &&& is_transmission(steps.last()) <==> sending(g)
            &&& forall|i: int|
                0 <= i < steps.len() && is_transmission(#[trigger] steps[i]) ==> is_announcement(
                    steps[i],
                    name,
                )
            &&& forall|i: int|
                0 <= i < outcomes.len() && is_transmission(steps[i]) && outcomes[i] is Finished
                    ==> #[trigger] steps[i + 1] == StepView::Perform(
                    ActionView::Sleep(ANNOUNCEMENT_INTERVAL),
                )
        }),
    decreases outcomes.len(),
{
    let init = GenericView::initial(name, cfg, stem);
    let (g, steps) = init.run(outcomes);
    if outcomes.len() == 0 {
        lemma_sound_start(name, cfg, stem);
        assert(steps.drop_last() =~= Seq::<StepView>::empty());
        assert(transmissions(steps.drop_last()) == 0);
    } else {
        let earlier = outcomes.drop_last();
        lemma_run_sound(name, cfg, stem, earlier);
        let (before, handed) = init.run(earlier);
        lemma_advance_sound(before, init, outcomes.last());
        let (next, step) = before.advance(outcomes.last());
        assert(steps == handed.push(step));
        assert(steps.drop_last() =~= handed);
        assert forall|i: int|
            0 <= i < steps.len() && is_transmission(#[trigger] steps[i]) implies is_announcement(
            steps[i],
            name,
        ) by {
            if i < handed.len() {
                assert(steps[i] == handed[i]);
            }
        }
        assert forall|i: int|
            0 <= i < outcomes.len() && is_transmission(steps[i]) && outcomes[i] is Finished
                implies #[trigger] steps[i + 1] == StepView::Perform(
            ActionView::Sleep(ANNOUNCEMENT_INTERVAL),
        ) by {
            if i + 1 < handed.len() {
                assert(steps[i] == handed[i]);
                assert(steps[i + 1] == handed[i + 1]);
                assert(earlier[i] == outcomes[i]);
            } else {
                assert(steps[i] == handed.last());
            }
        }
    }
}

/// How far a configuration has come: each stage counts for more than the
/// one before it, and inside the instructions each counts for more than
/// the one before it.
pub open spec fn progress(g: GenericView) -> nat {
    let length = g.settle.steps.len();
    match g.stage {
        GenericStage::Idle => 0,
        GenericStage::Failover => 1,
        GenericStage::Settle => 2 + g.settle.cursor,
        GenericStage::Announce => length + 3,
        GenericStage::Hook => length + 4,
        _ => length + 5,
    }
}

proof fn lemma_advance_order(g: GenericView, init: GenericView, outcome: Outcome)
    requires
        sound(g, init),
        init.stage is Idle,
        init.failover == FailoverView::initial(init.name),
    ensures
        ({
            let (next, step) = g.advance(outcome);
            &&& progress(g) <= progress(next)
            &&& g.stage is Settle && next.stage is Settle ==> g.settle.cursor < next.settle.cursor
            &&& g.failover.reclaimed && !(g.stage is Failover) ==> next.failover.reclaimed
            &&& !g.failover.reclaimed && !(g.stage is Failover) ==> !next.failover.reclaimed
        }),
{
    lemma_advance_sound(g, init, outcome);
}

/// The configuration never goes back.
///
/// Of two moments of one run, the later is at least as far as the earlier;
/// and where both are inside the instructions from `CONFIGURING` to
/// `CONFIGURED`, the later awaits a later instruction. So the instructions
/// are handed out in their order, each at most once: the configuration
/// path is walked once.
pub proof fn lemma_walked_once(
    name: Seq<char>,
    cfg: GenericInterfaceConfig,
    stem: Seq<char>,
    outcomes: Seq<Outcome>,
    i: int,
    j: int,
)
    requires
        0 <= i < j <= outcomes.len(),
    ensures
        ({
            let init = GenericView::initial(name, cfg, stem);
            let earlier = init.run(outcomes.take(i)).0;
            let later = init.run(outcomes.take(j)).0;
            &&& progress(earlier) <= progress(later)
            &&& earlier.stage is Settle && later.stage is Settle ==> earlier.settle.cursor
                < later.settle.cursor
        }),
    decreases j,
{
    let init = GenericView::initial(name, cfg, stem);
    let before = init.run(outcomes.take(j - 1)).0;
    lemma_run_sound(name, cfg, stem, outcomes.take(j - 1));
    lemma_advance_order(before, init, outcomes[j - 1]);
    assert(outcomes.take(j).drop_last() =~= outcomes.take(j - 1));
    assert(outcomes.take(j).last() == outcomes[j - 1]);
    if i < j - 1 {
        lemma_walked_once(name, cfg, stem, outcomes, i, j - 1);
    }
}

/// A probe that finds no router.
///
/// Of an interface with failover, whose description was set and whose
/// probe then got no lease: the segment never counts as reclaimed, however
/// the run goes on, and no frame is ever handed out for transmission. The
/// step that follows the probe is the first of the plain configuration.
pub proof fn lemma_no_router(
    name: Seq<char>,
    cfg: GenericInterfaceConfig,
    stem: Seq<char>,
    outcomes: Seq<Outcome>,
)
    requires
        cfg.do_failover,
        outcomes.len() >= 2,
        outcomes[0].succeeded(),
        outcomes[1] is Finished,
        !outcomes[1].succeeded(),
    ensures
        ({
            let (g, steps) = GenericView::initial(name, cfg, stem).run(outcomes);
            &&& !g.failover.reclaimed
            &&& !(g.stage is Idle) && !(g.stage is Failover)
            &&& transmissions(steps) == 0
            &&& steps[2] == StepView::Perform(hook_action("post-failover"@, name))
        }),
    decreases outcomes.len(),
{
    let init = GenericView::initial(name, cfg, stem);
    lemma_announcements(name, cfg, stem, outcomes);
    if outcomes.len() == 2 {
        let none = outcomes.drop_last().drop_last();
        assert(none.len() == 0);
        let (g0, s0) = init.run(none);
        assert((g0, s0) == (init.start().0, seq![init.start().1]));
        let (g1, s1) = init.run(outcomes.drop_last());
        assert(outcomes.drop_last().last() == outcomes[0]);
        assert(g1 == g0.advance(outcomes[0]).0);
        let (g2, s2) = init.run(outcomes);
        assert(g2 == g1.advance(outcomes[1]).0);
        assert(s2[2] == g1.advance(outcomes[1]).1);
    } else {
        let earlier = outcomes.drop_last();
        lemma_no_router(name, cfg, stem, earlier);
        lemma_run_sound(name, cfg, stem, earlier);
        let (before, handed) = init.run(earlier);
        lemma_advance_order(before, init, outcomes.last());
        assert(init.run(outcomes).1[2] == handed[2]);
    }
}

/// Whether `step` hands out a command that adds an address.
pub open spec fn step_adds_address(step: StepView) -> bool {
    step matches StepView::Perform(action) && adds_address(action)
}

spec fn adds_nothing(steps: Seq<InstructionView>) -> bool {
    forall|i: int| 0 <= i < steps.len() ==> !adds_address(#[trigger] steps[i].action)
}

proof fn lemma_words_differ()
    ensures
        "link"@ != "addr"@,
        "route"@ != "addr"@,
        "flush"@ != "add"@,
        "udhcpc"@ != "ip"@,
{
    reveal_strlit("link");
    reveal_strlit("addr");
    reveal_strlit("route");
    reveal_strlit("flush");
    reveal_strlit("add");
    reveal_strlit("udhcpc");
    reveal_strlit("ip");
    assert("link"@[0] != "addr"@[0]);
    assert("route"@[0] != "addr"@[0]);
    assert("flush"@[0] != "add"@[0]);
    assert("udhcpc"@[0] != "ip"@[0]);
}

proof fn lemma_advance_static(g: GenericView, init: GenericView, outcome: Outcome)
    requires
        sound(g, init),
        init.stage is Idle,
        init.failover == FailoverView::initial(init.name),
        init.fault.is_some() ==> adds_nothing(init.settle.steps),
        g.fault.is_some() ==> g.stage is Idle || g.stage is Failover || g.stage is Settle
            || g.stage is Failed,
    ensures
        ({
            let (next, step) = g.advance(outcome);
            &&& next.fault.is_some() ==> !step_adds_address(step)
            &&& next.fault.is_some() ==> next.stage is Idle || next.stage is Failover
                || next.stage is Settle || next.stage is Failed
            &&& next.fault.is_none() ==> !(step matches StepView::Abort(
                ErrorView::StaticNeedsAddress(_),
            ))
        }),
{
    lemma_words_differ();
    lemma_advance_sound(g, init, outcome);
    let (next, step) = g.advance(outcome);
    match g.stage {
        GenericStage::Failover => {
            let (failover, inner) = g.failover.advance(outcome);
            assert(!adds_address(failover.awaited()));
            if inner is Complete {
                if g.settle.steps.len() > 0 {
                    assert(g.fault.is_some() ==> !adds_address(g.settle.steps[0].action));
                }
            }
        },
        GenericStage::Settle => {
            let (settle, inner) = g.settle.advance(outcome);
            if inner is Perform {
                assert(g.fault.is_some() ==> !adds_address(
                    settle.steps[settle.cursor as int].action,
                ));
            }
        },
        _ => {},
    }
}

/// A static interface without its address, over a whole run.
///
/// Of the configuration of an interface in static mode, started and then
/// advanced once for each of `outcomes`: if its address or its prefix
/// length is absent, then no step ever hands out a command that adds an
/// address, and the configuration does not come to its end, nor to its
/// announcements; and if both are there, then no step stops it for want of
/// them.
pub proof fn lemma_static_run(
    name: Seq<char>,
    cfg: GenericInterfaceConfig,
    stem: Seq<char>,
    outcomes: Seq<Outcome>,
)
    requires
        cfg.mode == InterfaceMode::Static,
    ensures
        ({
            let (g, steps) = GenericView::initial(name, cfg, stem).run(outcomes);
            let absent = cfg.address.is_none() || cfg.netmask.is_none();
            &&& absent ==> forall|i: int|
                0 <= i < steps.len() ==> !step_adds_address(#[trigger] steps[i])
            &&& absent ==> !(g.stage is Done) && !(g.stage is Announce) && !(g.stage is Hook)
            &&& !absent ==> forall|i: int|
                0 <= i < steps.len() ==> #[trigger] steps[i] != StepView::Abort(
                    ErrorView::StaticNeedsAddress(name),
                )
        }),
    decreases outcomes.len(),
{
    let init = GenericView::initial(name, cfg, stem);
    let (g, steps) = init.run(outcomes);
    lemma_static_fails_fast(name, cfg, stem);
    lemma_settle_silent(name, cfg, stem);
    lemma_run_sound(name, cfg, stem, outcomes);
    lemma_words_differ();
    if outcomes.len() == 0 {
        assert(init.fault.is_some() ==> !adds_address(init.settle.steps[0].action));
    } else {
        let earlier = outcomes.drop_last();
        lemma_static_run(name, cfg, stem, earlier);
        lemma_run_sound(name, cfg, stem, earlier);
        let (before, handed) = init.run(earlier);
        lemma_advance_static(before, init, outcomes.last());
        assert forall|i: int| 0 <= i < steps.len() implies (init.fault.is_some()
            ==> !step_adds_address(#[trigger] steps[i])) && (init.fault.is_none() ==> steps[i]
            != StepView::Abort(ErrorView::StaticNeedsAddress(name))) by {
            if i < handed.len() {
                assert(steps[i] == handed[i]);
            }
        }
    }
}

/// Whether `command` sets the description of a link.
pub open spec fn is_describe(command: CommandView) -> bool {
    command.program == "ip"@ && command.args.len() == 6 && command.args[0] == "link"@
        && command.args[1] == "set"@ && command.args[2] == "dev"@ && command.args[4] == "alias"@
}

/// Whether `step` hands out a command that sets a description.
pub open spec fn sets_description(step: StepView) -> bool {
    step matches StepView::Perform(ActionView::Run(command)) && is_describe(command)
}

/// Whether `step` sets the description of the interface `name` to
/// `CONFIGURED`.
pub open spec fn marks_configured(step: StepView, name: Seq<char>) -> bool {
    step == StepView::Perform(ActionView::Run(describe_command(name, "CONFIGURED"@)))
}

/// Whether the description `CONFIGURED` was set or the configuration has
/// stopped: nothing sets a description from here on.
spec fn marked(g: GenericView) -> bool {
    ||| g.stage is Settle && g.fault.is_none() && g.settle.cursor + 2 >= g.settle.steps.len()
    ||| g.stage is Announce
    ||| g.stage is Hook
    ||| g.stage is Done
    ||| g.stage is Failed
}

proof fn lemma_tags_differ()
    ensures
        "CONFIGURED"@.len() != "CONFIGURING"@.len(),
        "CONFIGURED"@.len() != "FAILOVER_PROBING"@.len(),
        "CONFIGURED"@.len() != "FAILOVER_WAITING"@.len(),
{
    reveal_strlit("CONFIGURED");
    reveal_strlit("CONFIGURING");
    reveal_strlit("FAILOVER_PROBING");
    reveal_strlit("FAILOVER_WAITING");
}

proof fn lemma_describe_differs(name: Seq<char>, tag: Seq<char>)
    requires
        tag.len() != "CONFIGURED"@.len(),
    ensures
        describe_command(name, tag) != describe_command(name, "CONFIGURED"@),
{
    let a = describe_command(name, tag).args[5];
    let b = describe_command(name, "CONFIGURED"@).args[5];
    assert(a.len() == "\""@.len() + tag.len() + "\""@.len());
    assert(b.len() == "\""@.len() + "CONFIGURED"@.len() + "\""@.len());
}

/// Where the instructions of a complete configuration end: the last but
/// one sets `CONFIGURED`, the last is a hook, and no other one sets
/// `CONFIGURED`.
proof fn lemma_settle_end(name: Seq<char>, cfg: GenericInterfaceConfig, stem: Seq<char>)
    ensures
        ({
            let steps = settle_steps(name, cfg, stem);
            &&& cfg.complete() ==> steps.len() >= 2 && steps.last().action is Hook
            &&& forall|i: int|
                0 <= i < steps.len() && (#[trigger] steps[i]).action == ActionView::Run(
                    describe_command(name, "CONFIGURED"@),
                ) ==> cfg.complete() && i == steps.len() - 2
        }),
{
    lemma_tags_differ();
    lemma_describe_differs(name, "CONFIGURING"@);
    let steps = settle_steps(name, cfg, stem);
    let target = ActionView::Run(describe_command(name, "CONFIGURED"@));
    let opening = if cfg.do_failover {
        seq![may(hook_action("post-failover"@, name))]
    } else {
        Seq::empty()
    };
    let marked = opening.push(must(ActionView::Run(describe_command(name, "CONFIGURING"@))));
    assert(forall|i: int| 0 <= i < marked.len() ==> (#[trigger] marked[i]).action != target);
    if cfg.complete() {
        let a = marked.push(addressing(name, cfg));
        assert(addressing(name, cfg).action != target) by {
            assert(add_address_command(name, cfg.address->0@, cfg.netmask->0).args.len() == 5);
            assert(client_command(name, false).args.len() == 2);
            assert(describe_command(name, "CONFIGURED"@).args.len() == 6);
        }
        assert(forall|i: int| 0 <= i < a.len() ==> (#[trigger] a[i]).action != target);
        let b = a + routing(cfg);
        assert(forall|i: int| 0 <= i < b.len() ==> (#[trigger] b[i]).action != target) by {
            if cfg.gateway is Some {
                assert(route_command(cfg.gateway->0@, "default"@).args.len() == 5);
                assert(describe_command(name, "CONFIGURED"@).args.len() == 6);
            }
        }
        let c = b + serving(name, cfg, stem);
        assert(forall|i: int| 0 <= i < c.len() ==> (#[trigger] c[i]).action != target);
        let tail = seq![
            must(ActionView::Run(describe_command(name, "CONFIGURED"@))),
            may(hook_action("post-configure"@, name)),
        ];
        assert(steps == c + tail);
        assert forall|i: int| 0 <= i < steps.len() && (#[trigger] steps[i]).action
            == target implies i == steps.len() - 2 by {
            if i < c.len() {
                assert(steps[i] == c[i]);
            } else {
                assert(steps[i] == tail[i - c.len()]);
            }
        }
        assert(steps.last() == tail[1]);
    } else {
        assert(steps == marked);
    }
}

proof fn lemma_advance_marked(
    g: GenericView,
    name: Seq<char>,
    cfg: GenericInterfaceConfig,
    stem: Seq<char>,
    outcome: Outcome,
)
    requires
        sound(g, GenericView::initial(name, cfg, stem)),
    ensures
        ({
            let (next, step) = g.advance(outcome);
            &&& marks_configured(step, name) ==> marked(next)
            &&& marked(g) ==> marked(next) && !sets_description(step)
        }),
{
    let init = GenericView::initial(name, cfg, stem);
    lemma_advance_sound(g, init, outcome);
    lemma_settle_end(name, cfg, stem);
    lemma_tags_differ();
    lemma_describe_differs(name, "FAILOVER_PROBING"@);
    lemma_describe_differs(name, "FAILOVER_WAITING"@);
    let (next, step) = g.advance(outcome);
    let target = ActionView::Run(describe_command(name, "CONFIGURED"@));
    assert(describe_command(name, "CONFIGURED"@).args.len() == 6);
    assert(show_command(name).args.len() == 3);
    match g.stage {
        GenericStage::Failover => {
            let (failover, inner) = g.failover.advance(outcome);
            assert(client_command(name, true).args.len() == 4);
            assert(routes_command(name).args.len() == 4);
            assert(flush_command(name).args.len() == 4);
            if inner is Complete {
                if g.settle.steps.len() > 0 {
                    assert(g.settle.steps[0].action == target ==> g.settle.steps.len() == 2);
                }
            }
        },
        GenericStage::Settle => {
            let (settle, inner) = g.settle.advance(outcome);
            if inner is Perform {
                let at = settle.cursor as int;
                assert(settle.steps[at].action == target ==> at == settle.steps.len() - 2);
                if marked(g) {
                    assert(at == settle.steps.len() - 1);
                    assert(settle.steps[at] == settle.steps.last());
                }
            }
        },
        _ => {},
    }
}

/// Once configured, the description stays.
///
/// Of two steps of one run of a configuration: if the earlier sets the
/// description of the interface to `CONFIGURED`, then the later sets no
/// description.
pub proof fn lemma_configured_stays(
    name: Seq<char>,
    cfg: GenericInterfaceConfig,
    stem: Seq<char>,
    outcomes: Seq<Outcome>,
    i: int,
    j: int,
)
    requires
        0 <= i < j <= outcomes.len(),
    ensures
        ({
            let steps = GenericView::initial(name, cfg, stem).run(outcomes).1;
            marks_configured(steps[i], name) ==> !sets_description(steps[j])
        }),
{
    lemma_marked_run(name, cfg, stem, outcomes, i, j);
    lemma_run_prefix(name, cfg, stem, outcomes, i);
    lemma_run_prefix(name, cfg, stem, outcomes, j);
}

/// The steps of a run are those of each shorter run, and one more for
/// each further outcome.
proof fn lemma_run_prefix(
    name: Seq<char>,
    cfg: GenericInterfaceConfig,
    stem: Seq<char>,
    outcomes: Seq<Outcome>,
    n: int,
)
    requires
        0 <= n <= outcomes.len(),
    ensures
        ({
            let init = GenericView::initial(name, cfg, stem);
            &&& init.run(outcomes).1.len() == outcomes.len() + 1
            &&& init.run(outcomes.take(n)).1.len() == n + 1
            &&& init.run(outcomes).1[n] == init.run(outcomes.take(n)).1.last()
        }),
    decreases outcomes.len(),
{
    let init = GenericView::initial(name, cfg, stem);
    if n == outcomes.len() {
        assert(outcomes.take(n) =~= outcomes);
        lemma_run_sound(name, cfg, stem, outcomes);
    } else {
        let earlier = outcomes.drop_last();
        lemma_run_prefix(name, cfg, stem, earlier, n);
        assert(earlier.take(n) =~= outcomes.take(n));
    }
}

proof fn lemma_marked_run(
    name: Seq<char>,
    cfg: GenericInterfaceConfig,
    stem: Seq<char>,
    outcomes: Seq<Outcome>,
    i: int,
    j: int,
)
    requires
        0 <= i < j <= outcomes.len(),
    ensures
        ({
            let init = GenericView::initial(name, cfg, stem);
            let (first, early) = init.run(outcomes.take(i));
            let (then, late) = init.run(outcomes.take(j));
            marks_configured(early.last(), name) ==> marked(first) && marked(then)
                && !sets_description(late.last())
        }),
    decreases j - i,
{
    let init = GenericView::initial(name, cfg, stem);
    let (first, early) = init.run(outcomes.take(i));
    lemma_run_sound(name, cfg, stem, outcomes.take(j - 1));
    let (before, handed) = init.run(outcomes.take(j - 1));
    assert(outcomes.take(j).drop_last() =~= outcomes.take(j - 1));
    lemma_advance_marked(before, name, cfg, stem, outcomes[j - 1]);
    if i == j - 1 {
        lemma_marked_first(name, cfg, stem, outcomes.take(i));
    } else {
        lemma_marked_run(name, cfg, stem, outcomes, i, j - 1);
    }
}

/// The step that sets `CONFIGURED` leaves the configuration marked.
proof fn lemma_marked_first(
    name: Seq<char>,
    cfg: GenericInterfaceConfig,
    stem: Seq<char>,
    outcomes: Seq<Outcome>,
)
    ensures
        ({
            let (g, steps) = GenericView::initial(name, cfg, stem).run(outcomes);
            marks_configured(steps.last(), name) ==> marked(g)
        }),
{
    let init = GenericView::initial(name, cfg, stem);
    lemma_settle_end(name, cfg, stem);
    lemma_tags_differ();
    lemma_describe_differs(name, "FAILOVER_PROBING"@);
    if outcomes.len() == 0 {
        let steps = init.settle.steps;
        assert(steps.len() > 0) by {
            lemma_settle_silent(name, cfg, stem);
        }
        assert(steps[0].action == ActionView::Run(describe_command(name, "CONFIGURED"@))
            ==> steps.len() == 2);
    } else {
        lemma_run_sound(name, cfg, stem, outcomes.drop_last());
        let before = init.run(outcomes.drop_last()).0;
        lemma_advance_marked(before, name, cfg, stem, outcomes.last());
    }
}

/// Whether some step of `steps` sets the description of the interface
/// `name` to `CONFIGURED`.
pub open spec fn configured_in(steps: Seq<StepView>, name: Seq<char>) -> bool {
    exists|i: int| 0 <= i < steps.len() && marks_configured(#[trigger] steps[i], name)
}

/// Whether the configuration has come to the description `CONFIGURED` or
/// beyond it.
spec fn past(g: GenericView) -> bool {
    ||| g.stage is Settle && g.fault.is_none() && g.settle.cursor + 2 >= g.settle.steps.len()
    ||| g.stage is Announce
    ||| g.stage is Hook
    ||| g.stage is Done
}

/// The instructions leave none out, and those of a complete configuration
/// are four or more, with `CONFIGURED` as the last but one.
proof fn lemma_settle_shape(name: Seq<char>, cfg: GenericInterfaceConfig, stem: Seq<char>)
    ensures
        ({
            let steps = settle_steps(name, cfg, stem);
            &&& forall|i: int|
                0 <= i < steps.len() ==> (#[trigger] steps[i]).on_failure is Fatal
                    || steps[i].on_failure is Ignored
            &&& cfg.complete() ==> steps.len() >= 4 && steps[steps.len() - 2].action
                == ActionView::Run(describe_command(name, "CONFIGURED"@))
        }),
{
    let steps = settle_steps(name, cfg, stem);
    let opening = if cfg.do_failover {
        seq![may(hook_action("post-failover"@, name))]
    } else {
        Seq::empty()
    };
    let marked = opening.push(must(ActionView::Run(describe_command(name, "CONFIGURING"@))));
    if cfg.complete() {
        let c = marked.push(addressing(name, cfg)) + routing(cfg) + serving(name, cfg, stem);
        let tail = seq![
            must(ActionView::Run(describe_command(name, "CONFIGURED"@))),
            may(hook_action("post-configure"@, name)),
        ];
        assert(steps == c + tail);
        assert(steps[steps.len() - 2] == tail[0]);
        assert forall|i: int| 0 <= i < steps.len() implies (#[trigger] steps[i]).on_failure
            is Fatal || steps[i].on_failure is Ignored by {
            if i >= c.len() {
                assert(steps[i] == tail[i - c.len()]);
            }
        }
    }
}

proof fn lemma_advance_past(
    g: GenericView,
    name: Seq<char>,
    cfg: GenericInterfaceConfig,
    stem: Seq<char>,
    outcome: Outcome,
)
    requires
        sound(g, GenericView::initial(name, cfg, stem)),
    ensures
        ({
            let (next, step) = g.advance(outcome);
            past(next) && !past(g) ==> marks_configured(step, name)
        }),
{
    let init = GenericView::initial(name, cfg, stem);
    lemma_advance_sound(g, init, outcome);
    lemma_settle_shape(name, cfg, stem);
    match g.stage {
        GenericStage::Settle => {
            let at = g.settle.cursor as int;
            assert(g.settle.steps[at].on_failure is Fatal || g.settle.steps[at].on_failure
                is Ignored);
        },
        _ => {},
    }
}

/// The steps of a shorter run are the first steps of a longer one.
proof fn lemma_run_take(
    name: Seq<char>,
    cfg: GenericInterfaceConfig,
    stem: Seq<char>,
    outcomes: Seq<Outcome>,
    n: int,
)
    requires
        0 <= n <= outcomes.len(),
    ensures
        ({
            let init = GenericView::initial(name, cfg, stem);
            init.run(outcomes.take(n)).1 == init.run(outcomes).1.take(n + 1)
        }),
    decreases outcomes.len(),
{
    let init = GenericView::initial(name, cfg, stem);
    lemma_run_sound(name, cfg, stem, outcomes);
    if n == outcomes.len() {
        assert(outcomes.take(n) =~= outcomes);
        assert(init.run(outcomes).1.take(n + 1) =~= init.run(outcomes).1);
    } else {
        let earlier = outcomes.drop_last();
        lemma_run_take(name, cfg, stem, earlier, n);
        lemma_run_sound(name, cfg, stem, earlier);
        assert(earlier.take(n) =~= outcomes.take(n));
        assert(init.run(outcomes).1.take(n + 1) =~= init.run(earlier).1.take(n + 1));
    }
}

proof fn lemma_past_run(
    name: Seq<char>,
    cfg: GenericInterfaceConfig,
    stem: Seq<char>,
    outcomes: Seq<Outcome>,
)
    ensures
        ({
            let (g, steps) = GenericView::initial(name, cfg, stem).run(outcomes);
            past(g) ==> configured_in(steps, name)
        }),
    decreases outcomes.len(),
{
    let init = GenericView::initial(name, cfg, stem);
    let (g, steps) = init.run(outcomes);
    lemma_settle_shape(name, cfg, stem);
    if outcomes.len() == 0 {
        lemma_sound_start(name, cfg, stem);
    } else {
        let earlier = outcomes.drop_last();
        lemma_past_run(name, cfg, stem, earlier);
        lemma_run_sound(name, cfg, stem, earlier);
        let (before, handed) = init.run(earlier);
        lemma_advance_past(before, name, cfg, stem, outcomes.last());
        lemma_advance_sound(before, init, outcomes.last());
        if past(g) {
            if past(before) {
                let i = choose|i: int|
                    0 <= i < handed.len() && marks_configured(#[trigger] handed[i], name);
                assert(steps[i] == handed[i]);
            } else {
                assert(marks_configured(steps[steps.len() - 1], name));
            }
        }
    }
}

/// Announcements follow the configuration.
///
/// Of every step of a run that hands out a frame for transmission: an
/// earlier step of the run has set the description of the interface to
/// `CONFIGURED`.
pub proof fn lemma_frames_follow_configured(
    name: Seq<char>,
    cfg: GenericInterfaceConfig,
    stem: Seq<char>,
    outcomes: Seq<Outcome>,
    j: int,
)
    requires
        0 <= j <= outcomes.len(),
    ensures
        ({
            let steps = GenericView::initial(name, cfg, stem).run(outcomes).1;
            is_transmission(steps[j]) ==> exists|i: int|
                0 <= i < j && marks_configured(#[trigger] steps[i], name)
        }),
{
    let init = GenericView::initial(name, cfg, stem);
    let steps = init.run(outcomes).1;
    let (g, first) = init.run(outcomes.take(j));
    lemma_run_take(name, cfg, stem, outcomes, j);
    lemma_run_sound(name, cfg, stem, outcomes);
    lemma_run_sound(name, cfg, stem, outcomes.take(j));
    lemma_past_run(name, cfg, stem, outcomes.take(j));
    assert(first.last() == steps[j]);
    if is_transmission(steps[j]) {
        assert(sending(g));
        let i = choose|i: int| 0 <= i < first.len() && marks_configured(#[trigger] first[i], name);
        assert(first[i] == steps[i]);
        assert(i != j);
    }
}

/// The step that sets the description of the interface `name` to `tag`.
pub open spec fn tags(name: Seq<char>, tag: Seq<char>) -> StepView {
    StepView::Perform(ActionView::Run(describe_command(name, tag)))
}

/// The place of the tag that `step` sets in the order of the tags:
/// `FAILOVER_PROBING`, `FAILOVER_WAITING`, `CONFIGURING`, `CONFIGURED`.
/// Zero for a step that sets none of them on the interface `name`.
pub open spec fn tag_rank(step: StepView, name: Seq<char>) -> nat {
    if step == tags(name, "FAILOVER_PROBING"@) {
        1
    } else if step == tags(name, "FAILOVER_WAITING"@) {
        2
    } else if step == tags(name, "CONFIGURING"@) {
        3
    } else if step == tags(name, "CONFIGURED"@) {
        4
    } else {
        0
    }
}

/// The highest place that a tag set so far can have.
spec fn ceiling(g: GenericView) -> nat {
    let marking: nat = if g.guarded {
        1
    } else {
        0
    };
    match g.stage {
        GenericStage::Idle => 0,
        GenericStage::Failover => match g.failover.stage {
            FailoverStage::Idle => 0,
            FailoverStage::Announcing => 1,
            FailoverStage::Probing => 1,
            _ => 2,
        },
        GenericStage::Settle => if g.settle.cursor < marking {
            2
        } else if g.fault.is_some() || g.settle.cursor + 2 < g.settle.steps.len() {
            3
        } else {
            4
        },
        _ => 4,
    }
}

/// The four tags give four different steps, each with its place.
proof fn lemma_ranks(name: Seq<char>)
    ensures
        tag_rank(tags(name, "FAILOVER_PROBING"@), name) == 1,
        tag_rank(tags(name, "FAILOVER_WAITING"@), name) == 2,
        tag_rank(tags(name, "CONFIGURING"@), name) == 3,
        tag_rank(tags(name, "CONFIGURED"@), name) == 4,
        forall|tag: Seq<char>| sets_description(#[trigger] tags(name, tag)),
{
    reveal_strlit("CONFIGURED");
    reveal_strlit("CONFIGURING");
    reveal_strlit("FAILOVER_PROBING");
    reveal_strlit("FAILOVER_WAITING");
    reveal_strlit("\"");
    let quote = "\""@;
    let probing = describe_command(name, "FAILOVER_PROBING"@).args[5];
    let waiting = describe_command(name, "FAILOVER_WAITING"@).args[5];
    let configuring = describe_command(name, "CONFIGURING"@).args[5];
    let configured = describe_command(name, "CONFIGURED"@).args[5];
    assert(probing.len() == 18 && waiting.len() == 18 && configuring.len() == 13
        && configured.len() == 12);
    assert(probing[10] == 'P' && waiting[10] == 'W') by {
        assert(probing[10] == "FAILOVER_PROBING"@[9]);
        assert(waiting[10] == "FAILOVER_WAITING"@[9]);
    }
    assert forall|tag: Seq<char>| sets_description(#[trigger] tags(name, tag)) by {
        assert(is_describe(describe_command(name, tag)));
    }
}

/// Which of the instructions set a description: the one that sets
/// `CONFIGURING`, which comes first or after the failover hook, and, where
/// the configuration is complete, the one that sets `CONFIGURED`, which is
/// the last but one.
proof fn lemma_settle_tags(name: Seq<char>, cfg: GenericInterfaceConfig, stem: Seq<char>)
    ensures
        ({
            let steps = settle_steps(name, cfg, stem);
            let marking: int = if cfg.do_failover {
                1
            } else {
                0
            };
            &&& marking < steps.len()
            &&& steps[marking].action == ActionView::Run(describe_command(name, "CONFIGURING"@))
            &&& cfg.complete() ==> steps.len() >= marking + 4 && steps[steps.len() - 2].action
                == ActionView::Run(describe_command(name, "CONFIGURED"@))
            &&& !cfg.complete() ==> steps.len() == marking + 1
            &&& forall|i: int|
                0 <= i < steps.len() && sets_description(
                    StepView::Perform((#[trigger] steps[i]).action),
                ) ==> i == marking || (cfg.complete() && i == steps.len() - 2)
        }),
{
    let steps = settle_steps(name, cfg, stem);
    let opening = if cfg.do_failover {
        seq![may(hook_action("post-failover"@, name))]
    } else {
        Seq::empty()
    };
    let marked = opening.push(must(ActionView::Run(describe_command(name, "CONFIGURING"@))));
    if cfg.complete() {
        let a = marked.push(addressing(name, cfg));
        let b = a + routing(cfg);
        let c = b + serving(name, cfg, stem);
        let tail = seq![
            must(ActionView::Run(describe_command(name, "CONFIGURED"@))),
            may(hook_action("post-configure"@, name)),
        ];
        assert(steps == c + tail);
        assert(add_address_command(name, cfg.address->0@, cfg.netmask->0).args.len() == 5);
        assert(client_command(name, false).args.len() == 2);
        if cfg.gateway is Some {
            assert(route_command(cfg.gateway->0@, "default"@).args.len() == 5);
        }
        assert forall|i: int|
            0 <= i < steps.len() && sets_description(
                StepView::Perform((#[trigger] steps[i]).action),
            ) implies i == marked.len() - 1 || i == steps.len() - 2 by {
            if i < marked.len() {
                assert(steps[i] == marked[i]);
            } else if i < a.len() {
                assert(steps[i] == addressing(name, cfg));
            } else if i < b.len() {
                assert(steps[i] == routing(cfg)[i - a.len()]);
            } else if i < c.len() {
                assert(steps[i] == serving(name, cfg, stem)[i - b.len()]);
            } else {
                assert(steps[i] == tail[i - c.len()]);
            }
        }
        assert(steps[marked.len() - 1] == marked[marked.len() - 1]);
        assert(steps[steps.len() - 2] == tail[0]);
    } else {
        assert(steps == marked);
    }
}

proof fn lemma_advance_tags(
    g: GenericView,
    name: Seq<char>,
    cfg: GenericInterfaceConfig,
    stem: Seq<char>,
    outcome: Outcome,
)
    requires
        sound(g, GenericView::initial(name, cfg, stem)),
    ensures
        ({
            let (next, step) = g.advance(outcome);
            &&& ceiling(g) <= ceiling(next)
            &&& sets_description(step) ==> ceiling(g) < tag_rank(step, name) <= ceiling(next)
        }),
{
    let init = GenericView::initial(name, cfg, stem);
    lemma_advance_sound(g, init, outcome);
    lemma_settle_tags(name, cfg, stem);
    lemma_settle_shape(name, cfg, stem);
    lemma_ranks(name);
    let (next, step) = g.advance(outcome);
    assert(show_command(name).args.len() == 3);
    match g.stage {
        GenericStage::Failover => {
            assert(client_command(name, true).args.len() == 4);
            assert(routes_command(name).args.len() == 4);
            assert(flush_command(name).args.len() == 4);
        },
        GenericStage::Settle => {
            let at = g.settle.cursor as int;
            assert(g.settle.steps[at].on_failure is Fatal || g.settle.steps[at].on_failure
                is Ignored);
            let (settle, inner) = g.settle.advance(outcome);
            if inner is Perform {
                assert(settle.cursor == at + 1);
                assert(step == StepView::Perform(settle.steps[at + 1].action));
            }
        },
        _ => {},
    }
}

proof fn lemma_tags_run(
    name: Seq<char>,
    cfg: GenericInterfaceConfig,
    stem: Seq<char>,
    outcomes: Seq<Outcome>,
)
    ensures
        ({
            let (g, steps) = GenericView::initial(name, cfg, stem).run(outcomes);
            &&& forall|i: int|
                0 <= i < steps.len() && sets_description(#[trigger] steps[i]) ==> 0 < tag_rank(
                    steps[i],
                    name,
                ) <= ceiling(g)
            &&& forall|i: int, j: int|
                0 <= i < j < steps.len() && sets_description(#[trigger] steps[i])
                    && sets_description(#[trigger] steps[j]) ==> tag_rank(steps[i], name)
                    < tag_rank(steps[j], name)
        }),
    decreases outcomes.len(),
{
    let init = GenericView::initial(name, cfg, stem);
    let (g, steps) = init.run(outcomes);
    lemma_ranks(name);
    lemma_settle_tags(name, cfg, stem);
    if outcomes.len() == 0 {
        lemma_sound_start(name, cfg, stem);
    } else {
        let earlier = outcomes.drop_last();
        lemma_tags_run(name, cfg, stem, earlier);
        lemma_run_sound(name, cfg, stem, earlier);
        let (before, handed) = init.run(earlier);
        lemma_advance_tags(before, name, cfg, stem, outcomes.last());
        assert forall|i: int|
            0 <= i < steps.len() && sets_description(#[trigger] steps[i]) implies 0 < tag_rank(
            steps[i],
            name,
        ) <= ceiling(g) by {
            if i < handed.len() {
                assert(steps[i] == handed[i]);
            }
        }
        assert forall|i: int, j: int|
            0 <= i < j < steps.len() && sets_description(#[trigger] steps[i])
                && sets_description(#[trigger] steps[j]) implies tag_rank(steps[i], name)
            < tag_rank(steps[j], name) by {
            assert(steps[i] == handed[i]);
            if j < handed.len() {
                assert(steps[j] == handed[j]);
            }
        }
    }
}

/// The tags come in their order, each at most once.
///
/// Of the steps of a run that set a description: each sets one of the four
/// tags on the interface, and of any two the later sets a later tag. So the
/// description goes from `FAILOVER_PROBING` over `FAILOVER_WAITING` and
/// `CONFIGURING` to `CONFIGURED`, leaving out the first one or two where
/// there is no failover or no router, and never back.
pub proof fn lemma_tags_in_order(
    name: Seq<char>,
    cfg: GenericInterfaceConfig,
    stem: Seq<char>,
    outcomes: Seq<Outcome>,
    i: int,
    j: int,
)
    requires
        0 <= i < j <= outcomes.len(),
    ensures
        ({
            let steps = GenericView::initial(name, cfg, stem).run(outcomes).1;
            &&& sets_description(steps[i]) ==> 1 <= tag_rank(steps[i], name) <= 4
            &&& sets_description(steps[j]) ==> 1 <= tag_rank(steps[j], name) <= 4
            &&& sets_description(steps[i]) && sets_description(steps[j]) ==> tag_rank(
                steps[i],
                name,
            ) < tag_rank(steps[j], name)
        }),
{
    lemma_tags_run(name, cfg, stem, outcomes);
    lemma_run_sound(name, cfg, stem, outcomes);
}

/// A static interface fails fast.
///
/// Of an interface in static mode: its configuration ends in the fatal
/// condition `StaticNeedsAddress` if and only if its address or its prefix
/// length is absent; in that case none of its instructions adds an
/// address; otherwise the instruction after `CONFIGURING` adds the
/// configured address with the configured prefix length, and must succeed.
pub proof fn lemma_static_fails_fast(name: Seq<char>, cfg: GenericInterfaceConfig, stem: Seq<char>)
    requires
        cfg.mode == InterfaceMode::Static,
    ensures
        settle_fault(name, cfg) == Some(ErrorView::StaticNeedsAddress(name)) <==> (
        cfg.address.is_none() || cfg.netmask.is_none()),
        settle_fault(name, cfg).is_none() <==> (cfg.address.is_some() && cfg.netmask.is_some()),
        settle_fault(name, cfg).is_some() ==> forall|i: int|
            0 <= i < settle_steps(name, cfg, stem).len() ==> !adds_address(
                #[trigger] settle_steps(name, cfg, stem)[i].action,
            ),
        settle_fault(name, cfg).is_none() ==> ({
            let at = if cfg.do_failover {
                2int
            } else {
                1int
            };
            settle_steps(name, cfg, stem)[at] == must(
                ActionView::Run(add_address_command(name, cfg.address->0@, cfg.netmask->0)),
            )
        }),
{
    reveal_strlit("link");
    reveal_strlit("addr");
    assert("link"@[0] != "addr"@[0]);
    if settle_fault(name, cfg).is_some() {
        let steps = settle_steps(name, cfg, stem);
        assert forall|i: int| 0 <= i < steps.len() implies !adds_address(
            #[trigger] steps[i].action,
        ) by {
            if steps[i].action is Run {
                let command = steps[i].action->Run_0;
                assert(command == describe_command(name, "CONFIGURING"@));
                assert(command.args[0] == "link"@);
            }
        }
    }
}

/// Whether the action is a command that adds an address to an interface.
pub open spec fn adds_address(action: ActionView) -> bool {
    action matches ActionView::Run(command) && command.program == "ip"@ && command.args.len() >= 2
        && command.args[0] == "addr"@ && command.args[1] == "add"@
}

} // verus!
