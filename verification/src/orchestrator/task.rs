//! The task of one declared interface: it waits until the interfaces it
//! depends on are configured, configures its own by its kind, and starts
//! its services.
use crate::config::interfaceconfig::{InterfaceConfig, InterfaceTypeConfig};
use crate::interface::bridge::{bridge_configurator, lemma_bridge_fresh, BridgeInterface};
use crate::interface::ethernet::{ethernet_configurator, lemma_ethernet_fresh, EthernetInterface};
use crate::interface::garp::{ANNOUNCEMENTS, ANNOUNCEMENT_INTERVAL};
use crate::interface::generic::{is_announcement, is_transmission, sending, transmissions};
use crate::interface::{
    configurator_sound, fresh_configurator, lemma_configurator_advance, lemma_configurator_count,
    lemma_configurator_start, Configurator, ConfiguratorView,
};
use crate::link::dhcpd::{generate_random_string, is_stem};
use crate::link::interface::{
    description_of, lemma_no_alias_empty, position, show_command, Interface,
};
use crate::orchestrator::{lemma_services_silent, push_services, service_steps};
use crate::plan::{
    instructions, needs, push_instruction, silent, Action, ActionView, Error, ErrorView,
    Instruction, InstructionView, Outcome, Script, ScriptView, Step, StepView,
};
use crate::text::{copy_texts, same_text, texts, tokens};
use vstd::prelude::*;
use vstd::string::*;

verus! {

/// The seconds between two looks at a dependency.
pub const POLL_INTERVAL: u64 = 1;

/// Where the wait for the dependencies stands.
#[derive(Clone, Copy, Debug, PartialEq, Eq)]
pub enum WaitPhase {
    /// Not started.
    Idle,
    /// The dependency is being looked for.
    Checking,
    /// The description of the dependency is being read.
    Polling,
    /// The pause before the description is read again.
    Pausing,
    /// Ended.
    Done,
    /// Stopped on a fatal condition.
    Failed,
}

/// What a `DependencyWait` stands for in contracts, with its texts and lists as
/// sequences.
pub ghost struct DependencyWaitView {
    /// The interfaces to wait for, in the order in which they are declared.
    pub depends: Seq<Seq<char>>,
    /// The index of the dependency that is being waited for.
    pub index: nat,
    pub phase: WaitPhase,
}

impl DependencyWaitView {
    /// The wait for `depends`, not yet started.
    pub open spec fn initial(depends: Seq<Seq<char>>) -> DependencyWaitView {
        DependencyWaitView { depends, index: 0, phase: WaitPhase::Idle }
    }

    /// Whether an outcome is awaited.
    pub open spec fn active(self) -> bool {
        self.index < self.depends.len() && (self.phase is Checking || self.phase is Polling
            || self.phase is Pausing)
    }

    /// The dependency that is being waited for.
    pub open spec fn current(self) -> Seq<char>
        recommends
            self.index < self.depends.len(),
    {
        self.depends[self.index as int]
    }

    /// The action whose outcome is awaited.
    pub open spec fn awaited(self) -> ActionView {
        match self.phase {
            WaitPhase::Pausing => ActionView::Sleep(POLL_INTERVAL),
            _ => ActionView::Run(show_command(self.current())),
        }
    }

    /// The wait at `phase`, handing out the action of that phase.
    pub open spec fn at(self, phase: WaitPhase) -> (DependencyWaitView, StepView) {
        let next = DependencyWaitView { phase, ..self };
        (next, StepView::Perform(next.awaited()))
    }

    /// The wait stopped by `error`.
    pub open spec fn stop(self, error: ErrorView) -> (DependencyWaitView, StepView) {
        (DependencyWaitView { phase: WaitPhase::Failed, ..self }, StepView::Abort(error))
    }

    /// The dependency that was seen not yet configured and will be read
    /// again after the pause.
    pub open spec fn pending(self) -> Option<Seq<char>> {
        if self.active() && self.phase is Pausing {
            Some(self.current())
        } else {
            None
        }
    }

    /// The wait turned to the dependency at `index`; its end when there is
    /// none.
    pub open spec fn turn_to(self, index: nat) -> (DependencyWaitView, StepView) {
        if index < self.depends.len() {
            DependencyWaitView { index, ..self }.at(WaitPhase::Checking)
        } else {
            (
                DependencyWaitView { index: self.depends.len(), phase: WaitPhase::Done, ..self },
                StepView::Complete,
            )
        }
    }

    /// The first step: the first dependency is looked for.
    pub open spec fn start(self) -> (DependencyWaitView, StepView) {
        self.turn_to(0)
    }

    /// Whether the listing in `outcome` shows the description `CONFIGURED`.
    pub open spec fn confirms(outcome: Outcome) -> bool {
        outcome.succeeded() && description_of(outcome.text()) == Some("CONFIGURED"@)
    }

    /// The step after `outcome`. A dependency that does not exist stops the
    /// task. One that exists is read again and again, a second apart, until
    /// its description is `CONFIGURED`; only then the next one is turned to.
    /// A listing that fails stops the task.
    pub open spec fn advance(self, outcome: Outcome) -> (DependencyWaitView, StepView) {
        if !self.active() {
            (self, StepView::Complete)
        } else {
            match outcome {
                Outcome::Unperformed => self.stop(ErrorView::Unperformed(self.awaited())),
                Outcome::Finished { success, output } => match self.phase {
                    WaitPhase::Checking => if success {
                        self.at(WaitPhase::Polling)
                    } else {
                        self.stop(ErrorView::MissingInterface(self.current()))
                    },
                    WaitPhase::Polling => if !success {
                        self.stop(ErrorView::Failed(self.awaited()))
                    } else {
                        match description_of(output@) {
                            Some(description) => if description == "CONFIGURED"@ {
                                self.turn_to(self.index + 1)
                            } else {
                                self.at(WaitPhase::Pausing)
                            },
                            None => self.stop(ErrorView::NoDescription(self.current())),
                        }
                    },
                    _ => self.at(WaitPhase::Polling),
                },
            }
        }
    }
}

/// The wait of one task for the interfaces it depends on.
pub struct DependencyWait {
    depends: Vec<String>,
    index: usize,
    phase: WaitPhase,
}

impl View for DependencyWait {
    type V = DependencyWaitView;

    closed spec fn view(&self) -> DependencyWaitView {
        DependencyWaitView {
            depends: texts(self.depends@),
            index: self.index as nat,
            phase: self.phase,
        }
    }
}

impl DependencyWait {
    /// The wait for `depends`, not yet started.
    pub fn new(depends: Vec<String>) -> (r: DependencyWait)
        ensures
            r@ == DependencyWaitView::initial(texts(depends@)),
    {
        DependencyWait { depends, index: 0, phase: WaitPhase::Idle }
    }

    /// Where the wait stands.
    pub fn phase(&self) -> (r: WaitPhase)
        ensures
            r == self@.phase,
    {
        self.phase
    }

    /// The index of the dependency that is being waited for.
    pub fn index(&self) -> (r: usize)
        ensures
            r == self@.index,
    {
        self.index
    }

    /// The dependency that was seen not yet configured and will be read
    /// again after the pause.
    pub fn pending(&self) -> (r: Option<String>)
        ensures
            match r {
                Some(name) => self@.pending() == Some(name@),
                None => self@.pending().is_none(),
            },
    {
        if self.active() {
            match self.phase {
                WaitPhase::Pausing => Some(self.depends[self.index].clone()),
                _ => None,
            }
        } else {
            None
        }
    }

    /// Whether an outcome is awaited.
    pub fn active(&self) -> (r: bool)
        ensures
            r == self@.active(),
    {
        self.index < self.depends.len() && match self.phase {
            WaitPhase::Checking => true,
            WaitPhase::Polling => true,
            WaitPhase::Pausing => true,
            _ => false,
        }
    }

    fn awaited(&self) -> (action: Action)
        requires
            self@.index < self@.depends.len(),
        ensures
            action@ == self@.awaited(),
    {
        match self.phase {
            WaitPhase::Pausing => Action::Sleep(POLL_INTERVAL),
            _ => Action::Run(Interface::get_from_name(self.depends[self.index].as_str()).show()),
        }
    }

    fn at(&mut self, phase: WaitPhase) -> (step: Step)
        requires
            old(self)@.index < old(self)@.depends.len(),
        ensures
            (final(self)@, step@) == old(self)@.at(phase),
    {
        self.phase = phase;
        Step::Perform(self.awaited())
    }

    fn stop(&mut self, error: Error) -> (step: Step)
        ensures
            (final(self)@, step@) == old(self)@.stop(error@),
    {
        self.phase = WaitPhase::Failed;
        Step::Abort(error)
    }

    fn turn_to(&mut self, index: usize) -> (step: Step)
        ensures
            (final(self)@, step@) == old(self)@.turn_to(index as nat),
    {
        if index < self.depends.len() {
            self.index = index;
            self.at(WaitPhase::Checking)
        } else {
            self.index = self.depends.len();
            self.phase = WaitPhase::Done;
            Step::Complete
        }
    }

    /// Starts the wait and hands out its first action.
    pub fn start(&mut self) -> (step: Step)
        ensures
            (final(self)@, step@) == old(self)@.start(),
    {
        self.turn_to(0)
    }

    /// Takes the outcome of the awaited action and hands out what follows.
    /// Where no action is awaited, before the start or after the end, it
    /// hands out `Complete` and changes nothing.
    pub fn advance(&mut self, outcome: &Outcome) -> (step: Step)
        ensures
            (final(self)@, step@) == old(self)@.advance(*outcome),
    {
        if !self.active() {
            return Step::Complete;
        }
        match outcome {
            Outcome::Unperformed => {
                let action = self.awaited();
                self.stop(Error::Unperformed(action))
            },
            Outcome::Finished { success, output } => {
                match self.phase {
                    WaitPhase::Checking => {
                        if *success {
                            self.at(WaitPhase::Polling)
                        } else {
                            let name = self.depends[self.index].clone();
                            self.stop(Error::MissingInterface(name))
                        }
                    },
                    WaitPhase::Polling => {
                        if !*success {
                            let action = self.awaited();
                            return self.stop(Error::Failed(action));
                        }
                        match Interface::get_description(output.as_str()) {
                            Some(description) => {
                                if same_text(description.as_str(), "CONFIGURED") {
                                    assert(texts(self.depends@).len() == self.depends.len());
                                    let next = self.index + 1;
                                    self.turn_to(next)
                                } else {
                                    self.at(WaitPhase::Pausing)
                                }
                            },
                            None => {
                                let name = self.depends[self.index].clone();
                                self.stop(Error::NoDescription(name))
                            },
                        }
                    },
                    _ => self.at(WaitPhase::Polling),
                }
            },
        }
    }
}

/// The interfaces that `cfg` depends on.
pub open spec fn dependencies(cfg: InterfaceConfig) -> Seq<Seq<char>> {
    match cfg.shared.depends {
        Some(depends) => texts(depends@),
        None => Seq::empty(),
    }
}

/// What is asked before the configurator starts: an Ethernet interface
/// must be there.
pub open spec fn lead_steps(name: Seq<char>, cfg: InterfaceConfig) -> Seq<InstructionView> {
    match cfg.specific {
        InterfaceTypeConfig::Ethernet(_) => seq![needs(ActionView::Run(show_command(name)), name)],
        InterfaceTypeConfig::Bridge(_) => Seq::empty(),
    }
}

/// The configurator of the interface `name` by its kind.
pub open spec fn configurator_of(name: Seq<char>, cfg: InterfaceConfig, stem: Seq<char>)
    -> ConfiguratorView {
    match cfg.specific {
        InterfaceTypeConfig::Ethernet(specific) => ethernet_configurator(name, specific, stem),
        InterfaceTypeConfig::Bridge(specific) => bridge_configurator(name, specific, stem),
    }
}

/// Where a task stands.
#[derive(Clone, Copy, Debug, PartialEq, Eq)]
pub enum TaskStage {
    /// Not started.
    Idle,
    /// Waiting for the dependencies.
    Waiting,
    /// Looking for the interface.
    Lead,
    /// In the configurator.
    Configuring,
    /// Starting the services.
    Serving,
    /// Ended.
    Done,
    /// Stopped on a fatal condition.
    Failed,
}

/// What an `InterfaceTask` stands for in contracts, with its texts and lists as
/// sequences.
pub ghost struct TaskView {
    pub wait: DependencyWaitView,
    pub lead: ScriptView,
    pub configurator: ConfiguratorView,
    pub services: ScriptView,
    pub stage: TaskStage,
}

impl TaskView {
    /// The task of the interface `name` as `cfg` declares it, not yet
    /// started.
    pub open spec fn initial(name: Seq<char>, cfg: InterfaceConfig, stem: Seq<char>) -> TaskView {
        TaskView {
            wait: DependencyWaitView::initial(dependencies(cfg)),
            lead: ScriptView { steps: lead_steps(name, cfg), cursor: 0 },
            configurator: configurator_of(name, cfg, stem),
            services: ScriptView {
                steps: service_steps(texts(cfg.shared.services@), "start"@),
                cursor: 0,
            },
            stage: TaskStage::Idle,
        }
    }

    /// The task stopped or ended with `step`.
    pub open spec fn end(self, step: StepView) -> (TaskView, StepView) {
        let stage = if step is Abort {
            TaskStage::Failed
        } else {
            TaskStage::Done
        };
        (TaskView { stage, ..self }, step)
    }

    /// What follows a step of the wait: at its end the interface is looked
    /// for.
    pub open spec fn after_wait(self, step: StepView) -> (TaskView, StepView) {
        match step {
            StepView::Perform(action) => (TaskView { stage: TaskStage::Waiting, ..self }, step),
            StepView::Abort(error) => self.end(step),
            StepView::Complete => {
                let (lead, step) = self.lead.start();
                TaskView { lead, ..self }.after_lead(step)
            },
        }
    }

    /// What follows a step of the lead: at its end the configurator
    /// starts.
    pub open spec fn after_lead(self, step: StepView) -> (TaskView, StepView) {
        match step {
            StepView::Perform(action) => (TaskView { stage: TaskStage::Lead, ..self }, step),
            StepView::Abort(error) => self.end(step),
            StepView::Complete => {
                let (configurator, step) = self.configurator.start();
                TaskView { configurator, ..self }.after_configurator(step)
            },
        }
    }

    /// What follows a step of the configurator: at its end the services
    /// are started.
    pub open spec fn after_configurator(self, step: StepView) -> (TaskView, StepView) {
        match step {
            StepView::Perform(action) => (TaskView { stage: TaskStage::Configuring, ..self }, step),
            StepView::Abort(error) => self.end(step),
            StepView::Complete => {
                let (services, step) = self.services.start();
                TaskView { services, ..self }.after_services(step)
            },
        }
    }

    /// What follows a step of the services.
    pub open spec fn after_services(self, step: StepView) -> (TaskView, StepView) {
        match step {
            StepView::Perform(action) => (TaskView { stage: TaskStage::Serving, ..self }, step),
            _ => self.end(step),
        }
    }

    /// The first step.
    pub open spec fn start(self) -> (TaskView, StepView) {
        let (wait, step) = self.wait.start();
        TaskView { wait, ..self }.after_wait(step)
    }

    /// The step after `outcome`.
    pub open spec fn advance(self, outcome: Outcome) -> (TaskView, StepView) {
        match self.stage {
            TaskStage::Waiting => {
                let (wait, step) = self.wait.advance(outcome);
                TaskView { wait, ..self }.after_wait(step)
            },
            TaskStage::Lead => {
                let (lead, step) = self.lead.advance(outcome);
                TaskView { lead, ..self }.after_lead(step)
            },
            TaskStage::Configuring => {
                let (configurator, step) = self.configurator.advance(outcome);
                TaskView { configurator, ..self }.after_configurator(step)
            },
            TaskStage::Serving => {
                let (services, step) = self.services.advance(outcome);
                TaskView { services, ..self }.after_services(step)
            },
            _ => (self, StepView::Complete),
        }
    }
}

/// Whether `task` is the task of the interface `name` as `cfg` declares it,
/// not yet started, with some stem of five characters for its lease file.
pub open spec fn fresh_task(task: TaskView, name: Seq<char>, cfg: InterfaceConfig) -> bool {
    exists|stem: Seq<char>| is_stem(stem, 5) && task == TaskView::initial(name, cfg, stem)
}

/// The task of one declared interface: it waits for its dependencies,
/// configures the interface by its kind, and starts its services.
pub struct InterfaceTask {
    wait: DependencyWait,
    lead: Script,
    configurator: Configurator,
    services: Script,
    stage: TaskStage,
}

impl View for InterfaceTask {
    type V = TaskView;

    closed spec fn view(&self) -> TaskView {
        TaskView {
            wait: self.wait@,
            lead: self.lead@,
            configurator: self.configurator@,
            services: self.services@,
            stage: self.stage,
        }
    }
}

impl InterfaceTask {
    /// The task of the interface `name`, not yet started. The lease file of
    /// a DHCP server gets a stem of five characters drawn at random.
    pub fn new(name: &String, ifconfig: &InterfaceConfig) -> (r: InterfaceTask)
        ensures
            fresh_task(r@, name@, *ifconfig),
    {
        let stem = generate_random_string(5);
        Self::with_stem(name, ifconfig, stem.as_str())
    }

    /// The same with `stem` for the lease file.
    pub fn with_stem(name: &String, ifconfig: &InterfaceConfig, stem: &str) -> (r: InterfaceTask)
        ensures
            r@ == TaskView::initial(name@, *ifconfig, stem@),
    {
        let depends = match &ifconfig.shared.depends {
            Some(depends) => copy_texts(depends),
            None => Vec::new(),
        };
        assert(texts(depends@) =~= dependencies(*ifconfig));
        let mut lead: Vec<Instruction> = Vec::new();
        assert(instructions(lead@) =~= Seq::<InstructionView>::empty());
        let interface = Interface::get_from_name(name.as_str());
        let configurator = match &ifconfig.specific {
            InterfaceTypeConfig::Ethernet(specific) => {
                push_instruction(
                    &mut lead,
                    Instruction::needs(Action::Run(interface.is_present()), name.as_str()),
                );
                assert(instructions(lead@) =~= lead_steps(name@, *ifconfig));
                EthernetInterface::configure_with_stem(&interface, specific, stem)
            },
            InterfaceTypeConfig::Bridge(specific) => BridgeInterface::configure_with_stem(
                name,
                specific,
                stem,
            ),
        };
        let mut services: Vec<Instruction> = Vec::new();
        assert(instructions(services@) =~= Seq::<InstructionView>::empty());
        push_services(&mut services, &ifconfig.shared.services, "start");
        assert(instructions(services@) =~= service_steps(
            texts(ifconfig.shared.services@),
            "start"@,
        ));
        InterfaceTask {
            wait: DependencyWait::new(depends),
            lead: Script::new(lead),
            configurator,
            services: Script::new(services),
            stage: TaskStage::Idle,
        }
    }

    /// Where the task stands.
    pub fn stage(&self) -> (r: TaskStage)
        ensures
            r == self@.stage,
    {
        self.stage
    }

    /// The dependency that the task has seen not yet configured and will
    /// read again after the pause.
    pub fn pending(&self) -> (r: Option<String>)
        ensures
            match r {
                Some(name) => self@.stage is Waiting && self@.wait.pending() == Some(name@),
                None => !(self@.stage is Waiting) || self@.wait.pending().is_none(),
            },
    {
        match self.stage {
            TaskStage::Waiting => self.wait.pending(),
            _ => None,
        }
    }

    /// The configurator inside.
    pub fn configurator(&self) -> (r: &Configurator)
        ensures
            r@ == self@.configurator,
    {
        &self.configurator
    }

    fn end(&mut self, step: Step) -> (next: Step)
        ensures
            (final(self)@, next@) == old(self)@.end(step@),
    {
        self.stage = match &step {
            Step::Abort(_) => TaskStage::Failed,
            _ => TaskStage::Done,
        };
        step
    }

    fn after_wait(&mut self, step: Step) -> (next: Step)
        ensures
            (final(self)@, next@) == old(self)@.after_wait(step@),
    {
        match step {
            Step::Perform(action) => {
                self.stage = TaskStage::Waiting;
                Step::Perform(action)
            },
            Step::Abort(error) => self.end(Step::Abort(error)),
            Step::Complete => {
                let step = self.lead.start();
                self.after_lead(step)
            },
        }
    }

    fn after_lead(&mut self, step: Step) -> (next: Step)
        ensures
            (final(self)@, next@) == old(self)@.after_lead(step@),
    {
        match step {
            Step::Perform(action) => {
                self.stage = TaskStage::Lead;
                Step::Perform(action)
            },
            Step::Abort(error) => self.end(Step::Abort(error)),
            Step::Complete => {
                let step = self.configurator.start();
                self.after_configurator(step)
            },
        }
    }

    fn after_configurator(&mut self, step: Step) -> (next: Step)
        ensures
            (final(self)@, next@) == old(self)@.after_configurator(step@),
    {
        match step {
            Step::Perform(action) => {
                self.stage = TaskStage::Configuring;
                Step::Perform(action)
            },
            Step::Abort(error) => self.end(Step::Abort(error)),
            Step::Complete => {
                let step = self.services.start();
                self.after_services(step)
            },
        }
    }

    fn after_services(&mut self, step: Step) -> (next: Step)
        ensures
            (final(self)@, next@) == old(self)@.after_services(step@),
    {
        match step {
            Step::Perform(action) => {
                self.stage = TaskStage::Serving;
                Step::Perform(action)
            },
            other => self.end(other),
        }
    }

    /// Starts the task and hands out its first action.
    pub fn start(&mut self) -> (step: Step)
        ensures
            (final(self)@, step@) == old(self)@.start(),
    {
        let step = self.wait.start();
        self.after_wait(step)
    }

    /// Takes the outcome of the awaited action and hands out what follows.
    /// Where no action is awaited, before the start or after the end, it
    /// hands out `Complete` and changes nothing.
    pub fn advance(&mut self, outcome: &Outcome) -> (step: Step)
        ensures
            (final(self)@, step@) == old(self)@.advance(*outcome),
    {
        match self.stage {
            TaskStage::Waiting => {
                let step = self.wait.advance(outcome);
                self.after_wait(step)
            },
            TaskStage::Lead => {
                let step = self.lead.advance(outcome);
                self.after_lead(step)
            },
            TaskStage::Configuring => {
                let step = self.configurator.advance(outcome);
                self.after_configurator(step)
            },
            TaskStage::Serving => {
                let step = self.services.advance(outcome);
                self.after_services(step)
            },
            _ => Step::Complete,
        }
    }
}

impl DependencyWaitView {
    /// The wait after `start` and one `advance` for each of `outcomes`.
    pub open spec fn run(self, outcomes: Seq<Outcome>) -> DependencyWaitView
        decreases outcomes.len(),
    {
        if outcomes.len() == 0 {
            self.start().0
        } else {
            self.run(outcomes.drop_last()).advance(outcomes.last()).0
        }
    }
}

/// Whether, in the wait for `depends` driven by `outcomes`, the outcome at
/// index `j` is the listing of the dependency at index `k`, asked for its
/// description, and shows `CONFIGURED`.
pub open spec fn confirmed_at(
    depends: Seq<Seq<char>>,
    outcomes: Seq<Outcome>,
    j: int,
    k: int,
) -> bool {
    let before = DependencyWaitView::initial(depends).run(outcomes.take(j));
    &&& 0 <= j < outcomes.len()
    &&& before.index == k
    &&& before.phase is Polling
    &&& before.awaited() == ActionView::Run(show_command(depends[k]))
    &&& DependencyWaitView::confirms(outcomes[j])
}

/// Whether the dependency at index `k` was seen as `CONFIGURED` in the
/// course of `outcomes`.
pub open spec fn confirmed(depends: Seq<Seq<char>>, outcomes: Seq<Outcome>, k: int) -> bool {
    exists|j: int| confirmed_at(depends, outcomes, j, k)
}

spec fn wait_sound(w: DependencyWaitView, depends: Seq<Seq<char>>) -> bool {
    &&& w.depends == depends
    &&& w.index <= depends.len()
    &&& w.phase is Idle ==> w.index == 0
    &&& w.phase is Done ==> w.index == depends.len()
    &&& (w.phase is Checking || w.phase is Polling || w.phase is Pausing) ==> w.index
        < depends.len()
}

proof fn lemma_wait_advance(w: DependencyWaitView, depends: Seq<Seq<char>>, outcome: Outcome)
    requires
        wait_sound(w, depends),
    ensures
        ({
            let next = w.advance(outcome).0;
            &&& wait_sound(next, depends)
            &&& next.index == w.index || (next.index == w.index + 1 && w.phase is Polling
                && w.index < depends.len() && DependencyWaitView::confirms(outcome))
        }),
{
}

proof fn lemma_confirmed_extends(
    depends: Seq<Seq<char>>,
    outcomes: Seq<Outcome>,
    n: int,
    k: int,
)
    requires
        0 <= n <= outcomes.len(),
        confirmed(depends, outcomes.take(n), k),
    ensures
        confirmed(depends, outcomes, k),
{
    let j = choose|j: int| confirmed_at(depends, outcomes.take(n), j, k);
    assert(outcomes.take(n).take(j) =~= outcomes.take(j));
    assert(confirmed_at(depends, outcomes, j, k));
}

/// A dependency without an alias is waited for.
///
/// Of a wait that reads the description of a dependency: if the listing
/// succeeds and holds no token `alias`, the dependency does not count as
/// configured, whatever its name is; the wait pauses and will read again.
pub proof fn lemma_unset_alias_keeps_waiting(w: DependencyWaitView, outcome: Outcome)
    requires
        w.active(),
        w.phase is Polling,
        outcome.succeeded(),
        position(tokens(outcome.text()), "alias"@).is_none(),
    ensures
        !DependencyWaitView::confirms(outcome),
        w.advance(outcome) == (
            DependencyWaitView { phase: WaitPhase::Pausing, ..w },
            StepView::Perform(ActionView::Sleep(POLL_INTERVAL)),
        ),
{
    lemma_no_alias_empty(outcome.text());
}

/// No dependency is passed unseen.
///
/// Of the wait for `depends`, started and advanced once for each of
/// `outcomes`: every dependency before the one that is being waited for
/// was seen with the description `CONFIGURED`, in a listing that was asked
/// for in order to read its description; and a wait that has ended has
/// seen every dependency so.
pub proof fn lemma_dependencies_confirmed(depends: Seq<Seq<char>>, outcomes: Seq<Outcome>)
    ensures
        ({
            let w = DependencyWaitView::initial(depends).run(outcomes);
            &&& w.index <= depends.len()
            &&& w.phase is Done ==> w.index == depends.len()
            &&& forall|k: int| 0 <= k < w.index ==> confirmed(depends, outcomes, k)
        }),
{
    lemma_wait_run(depends, outcomes);
}

proof fn lemma_wait_run(depends: Seq<Seq<char>>, outcomes: Seq<Outcome>)
    ensures
        ({
            let w = DependencyWaitView::initial(depends).run(outcomes);
            &&& wait_sound(w, depends)
            &&& forall|k: int| 0 <= k < w.index ==> confirmed(depends, outcomes, k)
        }),
    decreases outcomes.len(),
{
    let init = DependencyWaitView::initial(depends);
    let w = init.run(outcomes);
    if outcomes.len() > 0 {
        let earlier = outcomes.drop_last();
        lemma_wait_run(depends, earlier);
        let before = init.run(earlier);
        lemma_wait_advance(before, depends, outcomes.last());
        assert(earlier =~= outcomes.take(outcomes.len() - 1));
        assert forall|k: int| 0 <= k < w.index implies confirmed(depends, outcomes, k) by {
            if k < before.index {
                lemma_confirmed_extends(depends, outcomes, outcomes.len() - 1, k);
            } else {
                assert(confirmed_at(depends, outcomes, outcomes.len() - 1, k));
            }
        }
    }
}

impl TaskView {
    /// The task after `start` and one `advance` for each of `outcomes`,
    /// with the steps that were handed out on the way.
    pub open spec fn run(self, outcomes: Seq<Outcome>) -> (TaskView, Seq<StepView>)
        decreases outcomes.len(),
    {
        if outcomes.len() == 0 {
            let (next, step) = self.start();
            (next, seq![step])
        } else {
            let (before, steps) = self.run(outcomes.drop_last());
            let (next, step) = before.advance(outcomes.last());
            (next, steps.push(step))
        }
    }

    /// Whether the task has gone beyond its dependencies: it looks for its
    /// interface, configures it, starts its services, or is done.
    pub open spec fn begun(self) -> bool {
        self.stage is Lead || self.stage is Configuring || self.stage is Serving
            || self.stage is Done
    }
}

/// Whether the step only looks at a dependency or pauses: it lists one of
/// `depends`, or it is the pause between two listings.
pub open spec fn only_looks(step: StepView, depends: Seq<Seq<char>>) -> bool {
    ||| step == StepView::Perform(ActionView::Sleep(POLL_INTERVAL))
    ||| exists|k: int|
        0 <= k < depends.len() && step == StepView::Perform(
            ActionView::Run(show_command(#[trigger] depends[k])),
        )
}

spec fn task_sound(t: TaskView, init: TaskView, outcomes: Seq<Outcome>) -> bool {
    let depends = init.wait.depends;
    &&& wait_sound(t.wait, depends)
    &&& forall|k: int| 0 <= k < t.wait.index ==> confirmed(depends, outcomes, k)
    &&& t.stage is Waiting ==> t.wait.active()
    &&& t.stage is Idle ==> t == init
    &&& t.begun() ==> t.wait.phase is Done
    &&& (t.stage is Idle || t.stage is Waiting) ==> t.wait == init.wait.run(outcomes) && t.lead
        == init.lead && t.configurator == init.configurator && t.services == init.services
}

proof fn lemma_task_run(
    name: Seq<char>,
    cfg: InterfaceConfig,
    stem: Seq<char>,
    outcomes: Seq<Outcome>,
)
    ensures
        ({
            let init = TaskView::initial(name, cfg, stem);
            let (t, steps) = init.run(outcomes);
            &&& steps.len() == outcomes.len() + 1
            &&& task_sound(t, init, outcomes)
            &&& t.stage is Waiting ==> only_looks(steps.last(), dependencies(cfg))
        }),
    decreases outcomes.len(),
{
    let init = TaskView::initial(name, cfg, stem);
    let depends = dependencies(cfg);
    let (t, steps) = init.run(outcomes);
    if outcomes.len() == 0 {
        lemma_wait_run(depends, outcomes);
    } else {
        let earlier = outcomes.drop_last();
        lemma_task_run(name, cfg, stem, earlier);
        let (before, handed) = init.run(earlier);
        assert(earlier =~= outcomes.take(outcomes.len() - 1));
        assert forall|k: int| 0 <= k < before.wait.index implies confirmed(
            depends,
            outcomes,
            k,
        ) by {
            lemma_confirmed_extends(depends, outcomes, outcomes.len() - 1, k);
        }
        if before.stage is Waiting {
            lemma_wait_run(depends, outcomes);
            lemma_wait_advance(before.wait, depends, outcomes.last());
        }
    }
}

/// Dependency ordering.
///
/// Of the task of an interface, started and advanced once for each of
/// `outcomes`: if it has gone beyond its dependencies, then each of them
/// was seen with the description `CONFIGURED` in the course of those
/// outcomes; and for as long as it waits, the steps it hands out only list
/// a dependency or pause.
pub proof fn lemma_dependency_ordering(
    name: Seq<char>,
    cfg: InterfaceConfig,
    stem: Seq<char>,
    outcomes: Seq<Outcome>,
)
    ensures
        ({
            let (t, steps) = TaskView::initial(name, cfg, stem).run(outcomes);
            &&& t.begun() ==> forall|k: int|
                0 <= k < dependencies(cfg).len() ==> confirmed(dependencies(cfg), outcomes, k)
            &&& t.stage is Waiting ==> only_looks(steps.last(), dependencies(cfg))
        }),
{
    lemma_task_run(name, cfg, stem, outcomes);
}

proof fn lemma_task_fresh(name: Seq<char>, cfg: InterfaceConfig, stem: Seq<char>)
    ensures
        ({
            let init = TaskView::initial(name, cfg, stem);
            &&& fresh_configurator(init.configurator, name, cfg.generic(), stem)
            &&& silent(init.lead.steps)
            &&& silent(init.services.steps)
        }),
{
    lemma_services_silent(texts(cfg.shared.services@), "start"@);
    match cfg.specific {
        InterfaceTypeConfig::Ethernet(specific) => {
            lemma_ethernet_fresh(name, specific, stem);
        },
        InterfaceTypeConfig::Bridge(specific) => {
            lemma_bridge_fresh(name, specific, stem);
        },
    }
}

/// What holds of every task that was started as `init` and advanced from
/// there.
spec fn task_kept(t: TaskView, init: TaskView) -> bool {
    &&& configurator_sound(t.configurator, init.configurator)
    &&& t.lead.steps == init.lead.steps
    &&& t.services.steps == init.services.steps
    &&& (t.stage is Idle || t.stage is Waiting || t.stage is Lead) ==> t.configurator
        == init.configurator
    &&& t.stage is Lead ==> t.lead.cursor < t.lead.steps.len()
    &&& t.stage is Serving ==> t.services.cursor < t.services.steps.len()
    &&& t.stage is Configuring ==> t.configurator.active()
    &&& (t.stage is Serving || t.stage is Done) ==> t.configurator.stage is Done
    &&& sending(t.configurator.generic) ==> t.stage is Configuring
}

proof fn lemma_task_start(name: Seq<char>, cfg: InterfaceConfig, stem: Seq<char>)
    ensures
        ({
            let init = TaskView::initial(name, cfg, stem);
            let (t, step) = init.start();
            &&& task_kept(t, init)
            &&& !is_transmission(step)
            &&& !sending(t.configurator.generic)
            &&& t.configurator.generic.announcer.sent == 0
        }),
{
    let init = TaskView::initial(name, cfg, stem);
    lemma_task_fresh(name, cfg, stem);
    lemma_configurator_start(init.configurator, name, cfg.generic(), stem);
    lemma_configurator_count(init.configurator, init.configurator);
    if init.lead.steps.len() > 0 {
        assert(!(init.lead.steps[0].action is Transmit));
    }
    if init.services.steps.len() > 0 {
        assert(!(init.services.steps[0].action is Transmit));
    }
}

proof fn lemma_task_advance(
    t: TaskView,
    name: Seq<char>,
    cfg: InterfaceConfig,
    stem: Seq<char>,
    outcome: Outcome,
)
    requires
        task_kept(t, TaskView::initial(name, cfg, stem)),
    ensures
        ({
            let (next, step) = t.advance(outcome);
            let before = t.configurator.generic;
            let after = next.configurator.generic;
            &&& task_kept(next, TaskView::initial(name, cfg, stem))
            &&& is_transmission(step) <==> sending(after)
            &&& is_transmission(step) ==> is_announcement(step, name)
            &&& after.announcer.sent == before.announcer.sent + if is_transmission(step) {
                1nat
            } else {
                0nat
            }
            &&& sending(before) && outcome is Finished ==> step == StepView::Perform(
                ActionView::Sleep(ANNOUNCEMENT_INTERVAL),
            )
        }),
{
    let init = TaskView::initial(name, cfg, stem);
    lemma_task_fresh(name, cfg, stem);
    lemma_configurator_start(init.configurator, name, cfg.generic(), stem);
    lemma_configurator_count(t.configurator, init.configurator);
    if init.lead.steps.len() > 0 {
        assert(!(init.lead.steps[0].action is Transmit));
    }
    if init.services.steps.len() > 0 {
        assert(!(init.services.steps[0].action is Transmit));
    }
    match t.stage {
        TaskStage::Lead => {
            let (lead, inner) = t.lead.advance(outcome);
            if inner is Perform {
                assert(!(lead.steps[lead.cursor as int].action is Transmit));
            }
        },
        TaskStage::Configuring => {
            lemma_configurator_advance(
                t.configurator,
                init.configurator,
                name,
                cfg.generic(),
                stem,
                outcome,
            );
            let (configurator, inner) = t.configurator.advance(outcome);
            lemma_configurator_count(configurator, init.configurator);
        },
        TaskStage::Serving => {
            let (services, inner) = t.services.advance(outcome);
            if inner is Perform {
                assert(!(services.steps[services.cursor as int].action is Transmit));
            }
        },
        _ => {},
    }
}

proof fn lemma_task_kept(
    name: Seq<char>,
    cfg: InterfaceConfig,
    stem: Seq<char>,
    outcomes: Seq<Outcome>,
)
    ensures
        ({
            let init = TaskView::initial(name, cfg, stem);
            let (t, steps) = init.run(outcomes);
            let g = t.configurator.generic;
            &&& task_kept(t, init)
            &&& steps.len() == outcomes.len() + 1
            &&& transmissions(steps) == g.announcer.sent
            &&& is_transmission(steps.last()) <==> sending(g)
            &&& forall|i: int|
                0 <= i < steps.len() && is_transmission(#[trigger] steps[i]) ==> is_announcement(
                    steps[i],
                    name,
                )
            &&& forall|i: int|
                0 <= i < outcomes.len() && is_transmission(steps[i]) && outcomes[i] is Finished
                    ==> #[trigger] steps[i + 1] == StepView::Perform(
                    ActionView::Sleep(ANNOUNCEMENT_INTERVAL),
                )
        }),
    decreases outcomes.len(),
{
    let init = TaskView::initial(name, cfg, stem);
    let (t, steps) = init.run(outcomes);
    if outcomes.len() == 0 {
        lemma_task_start(name, cfg, stem);
        assert(steps.drop_last() =~= Seq::<StepView>::empty());
        assert(transmissions(steps.drop_last()) == 0);
    } else {
        let earlier = outcomes.drop_last();
        lemma_task_kept(name, cfg, stem, earlier);
        let (before, handed) = init.run(earlier);
        lemma_task_advance(before, name, cfg, stem, outcomes.last());
        let (next, step) = before.advance(outcomes.last());
        assert(steps == handed.push(step));
        assert(steps.drop_last() =~= handed);
        assert forall|i: int|
            0 <= i < steps.len() && is_transmission(#[trigger] steps[i]) implies is_announcement(
            steps[i],
            name,
        ) by {
            if i < handed.len() {
                assert(steps[i] == handed[i]);
            }
        }
        assert forall|i: int|
            0 <= i < outcomes.len() && is_transmission(steps[i]) && outcomes[i] is Finished
                implies #[trigger] steps[i + 1] == StepView::Perform(
            ActionView::Sleep(ANNOUNCEMENT_INTERVAL),
        ) by {
            if i + 1 < handed.len() {
                assert(steps[i] == handed[i]);
                assert(steps[i + 1] == handed[i + 1]);
                assert(earlier[i] == outcomes[i]);
            } else {
                assert(steps[i] == handed.last());
            }
        }
    }
}

/// Announcements over the whole task of an interface.
///
/// Of the task of an interface, started and then advanced once for each of
/// `outcomes`, whatever they are:
/// - the frames handed out for transmission are as many as the announcer
///   of its configuration counts, and never more than three;
/// - none is handed out unless failover reclaimed the segment;
/// - a task that reclaimed the segment and came to its end handed out
///   exactly three;
/// - each of them is the gratuitous announcement of a six-byte station on
///   the link of the interface;
/// - after each that was put on the wire, the next step is the pause of a
///   second.
pub proof fn lemma_task_announcements(
    name: Seq<char>,
    cfg: InterfaceConfig,
    stem: Seq<char>,
    outcomes: Seq<Outcome>,
)
    ensures
        ({
            let (t, steps) = TaskView::initial(name, cfg, stem).run(outcomes);
            let g = t.configurator.generic;
            &&& transmissions(steps) == g.announcer.sent
            &&& transmissions(steps) <= ANNOUNCEMENTS
            &&& !g.failover.reclaimed ==> transmissions(steps) == 0
            &&& t.stage is Done && g.failover.reclaimed ==> transmissions(steps) == ANNOUNCEMENTS
            &&& forall|i: int|
                0 <= i < steps.len() && is_transmission(#[trigger] steps[i]) ==> is_announcement(
                    steps[i],
                    name,
                )
            &&& forall|i: int|
                0 <= i < outcomes.len() && is_transmission(steps[i]) && outcomes[i] is Finished
                    ==> #[trigger] steps[i + 1] == StepView::Perform(
                    ActionView::Sleep(ANNOUNCEMENT_INTERVAL),
                )
        }),
{
    lemma_task_kept(name, cfg, stem, outcomes);
    let init = TaskView::initial(name, cfg, stem);
    let t = init.run(outcomes).0;
    lemma_configurator_count(t.configurator, init.configurator);
}

} // verus!
