//! The configurators: what is done to an interface, step by step. Each
//! kind of interface brings its link up in its own way and then goes
//! through the generic configuration.
pub mod bridge;
pub mod ethernet;
pub mod failover;
pub mod garp;
pub mod generic;

use crate::config::interfaceconfig::GenericInterfaceConfig;
use crate::interface::garp::{ANNOUNCEMENTS, ANNOUNCEMENT_INTERVAL};
use crate::interface::generic::{
    is_announcement, is_transmission, lemma_sound_advance, lemma_sound_count, lemma_sound_start,
    sending, sound, GenericConfiguration, GenericView,
};
use crate::plan::{silent, ActionView, Outcome, Script, ScriptView, Step, StepView};
use vstd::prelude::*;

verus! {

/// Where a configurator stands.
#[derive(Clone, Copy, Debug, PartialEq, Eq)]
pub enum ConfiguratorStage {
    /// Not started.
    Idle,
    /// In the instructions that bring the link up.
    Link,
    /// In the generic configuration.
    Generic,
    /// Ended.
    Done,
    /// Stopped on a fatal condition.
    Failed,
}

/// What a `Configurator` stands for in contracts, with its texts and lists as
/// sequences.
pub ghost struct ConfiguratorView {
    /// The instructions that bring the link up.
    pub link: ScriptView,
    pub generic: GenericView,
    pub stage: ConfiguratorStage,
}

impl ConfiguratorView {
    /// Whether an outcome is awaited.
    pub open spec fn active(self) -> bool {
        self.stage is Link || self.stage is Generic
    }

    /// The configurator stopped or ended with `step`.
    pub open spec fn end(self, step: StepView) -> (ConfiguratorView, StepView) {
        let stage = if step is Abort {
            ConfiguratorStage::Failed
        } else {
            ConfiguratorStage::Done
        };
        (ConfiguratorView { stage, ..self }, step)
    }

    /// What follows a step of the link instructions: at their end the
    /// generic configuration begins.
    pub open spec fn after_link(self, step: StepView) -> (ConfiguratorView, StepView) {
        match step {
            StepView::Perform(action) => (
                ConfiguratorView { stage: ConfiguratorStage::Link, ..self },
                step,
            ),
            StepView::Abort(error) => self.end(step),
            StepView::Complete => {
                let (generic, step) = self.generic.start();
                ConfiguratorView { generic, ..self }.after_generic(step)
            },
        }
    }

    /// What follows a step of the generic configuration.
    pub open spec fn after_generic(self, step: StepView) -> (ConfiguratorView, StepView) {
        match step {
            StepView::Perform(action) => (
                ConfiguratorView { stage: ConfiguratorStage::Generic, ..self },
                step,
            ),
            _ => self.end(step),
        }
    }

    /// The first step.
    pub open spec fn start(self) -> (ConfiguratorView, StepView) {
        let (link, step) = self.link.start();
        ConfiguratorView { link, ..self }.after_link(step)
    }

    /// The step after `outcome`.
    pub open spec fn advance(self, outcome: Outcome) -> (ConfiguratorView, StepView) {
        match self.stage {
            ConfiguratorStage::Link => {
                let (link, step) = self.link.advance(outcome);
                ConfiguratorView { link, ..self }.after_link(step)
            },
            ConfiguratorStage::Generic => {
                let (generic, step) = self.generic.advance(outcome);
                ConfiguratorView { generic, ..self }.after_generic(step)
            },
            _ => (self, StepView::Complete),
        }
    }
}

/// The configuration of one interface: its link is brought up, then it is
/// configured.
pub struct Configurator {
    link: Script,
    generic: GenericConfiguration,
    stage: ConfiguratorStage,
}

impl View for Configurator {
    type V = ConfiguratorView;

    closed spec fn view(&self) -> ConfiguratorView {
        ConfiguratorView { link: self.link@, generic: self.generic@, stage: self.stage }
    }
}

impl Configurator {
    /// The configurator that walks `link` and then `generic`.
    pub fn new(link: Script, generic: GenericConfiguration) -> (r: Configurator)
        ensures
            r@ == (ConfiguratorView {
                link: link@,
                generic: generic@,
                stage: ConfiguratorStage::Idle,
            }),
    {
        Configurator { link, generic, stage: ConfiguratorStage::Idle }
    }

    /// Where the configurator stands.
    pub fn stage(&self) -> (r: ConfiguratorStage)
        ensures
            r == self@.stage,
    {
        self.stage
    }

    /// The generic configuration inside.
    pub fn generic(&self) -> (r: &GenericConfiguration)
        ensures
            r@ == self@.generic,
    {
        &self.generic
    }

    fn after_link(&mut self, step: Step) -> (next: Step)
        ensures
            (final(self)@, next@) == old(self)@.after_link(step@),
    {
        match step {
            Step::Perform(action) => {
                self.stage = ConfiguratorStage::Link;
                Step::Perform(action)
            },
            Step::Abort(error) => {
                self.stage = ConfiguratorStage::Failed;
                Step::Abort(error)
            },
            Step::Complete => {
                let step = self.generic.start();
                self.after_generic(step)
            },
        }
    }

    fn after_generic(&mut self, step: Step) -> (next: Step)
        ensures
            (final(self)@, next@) == old(self)@.after_generic(step@),
    {
        match step {
            Step::Perform(action) => {
                self.stage = ConfiguratorStage::Generic;
                Step::Perform(action)
            },
            Step::Abort(error) => {
                self.stage = ConfiguratorStage::Failed;
                Step::Abort(error)
            },
            Step::Complete => {
                self.stage = ConfiguratorStage::Done;
                Step::Complete
            },
        }
    }

    /// Starts the configurator and hands out its first action.
    pub fn start(&mut self) -> (step: Step)
        ensures
            (final(self)@, step@) == old(self)@.start(),
    {
        let step = self.link.start();
        self.after_link(step)
    }

    /// Takes the outcome of the awaited action and hands out what follows.
    /// Where no action is awaited, before the start or after the end, it
    /// hands out `Complete` and changes nothing.
    pub fn advance(&mut self, outcome: &Outcome) -> (step: Step)
        ensures
            (final(self)@, step@) == old(self)@.advance(*outcome),
    {
        match self.stage {
            ConfiguratorStage::Link => {
                let step = self.link.advance(outcome);
                self.after_link(step)
            },
            ConfiguratorStage::Generic => {
                let step = self.generic.advance(outcome);
                self.after_generic(step)
            },
            _ => Step::Complete,
        }
    }
}

/// Whether `init` is the configurator of the interface `name`, not yet
/// started: its generic configuration is the one that `cfg` declares, and
/// the instructions for its link put no frame on the wire.
pub open spec fn fresh_configurator(
    init: ConfiguratorView,
    name: Seq<char>,
    cfg: GenericInterfaceConfig,
    stem: Seq<char>,
) -> bool {
    &&& init.generic == GenericView::initial(name, cfg, stem)
    &&& init.stage is Idle
    &&& init.link.cursor == 0
    &&& silent(init.link.steps)
}

/// What holds of every configurator that was started as `init` and
/// advanced from there.
pub closed spec fn configurator_sound(c: ConfiguratorView, init: ConfiguratorView) -> bool {
    &&& sound(c.generic, init.generic)
    &&& c.link.steps == init.link.steps
    &&& (c.stage is Idle || c.stage is Link) ==> c.generic == init.generic
    &&& c.stage is Link ==> c.link.cursor < c.link.steps.len()
    &&& c.stage is Generic ==> c.generic.active()
    &&& c.stage is Done ==> c.generic.stage is Done
    &&& sending(c.generic) ==> c.stage is Generic
}

/// What `configurator_sound` says of the count of the announcer.
pub proof fn lemma_configurator_count(c: ConfiguratorView, init: ConfiguratorView)
    requires
        configurator_sound(c, init),
    ensures
        c.generic.announcer.sent <= ANNOUNCEMENTS,
        c.generic.announcer.sent > 0 ==> c.generic.failover.reclaimed,
        c.stage is Done && c.generic.failover.reclaimed ==> c.generic.announcer.sent
            == ANNOUNCEMENTS,
        sending(c.generic) ==> c.stage is Generic,
{
    lemma_sound_count(c.generic, init.generic);
}

/// A configurator that was not started yet is sound, and so is it once
/// started; its first step hands out no frame.
pub proof fn lemma_configurator_start(
    init: ConfiguratorView,
    name: Seq<char>,
    cfg: GenericInterfaceConfig,
    stem: Seq<char>,
)
    requires
        fresh_configurator(init, name, cfg, stem),
    ensures
        ({
            let (c, step) = init.start();
            &&& configurator_sound(init, init)
            &&& configurator_sound(c, init)
            &&& !is_transmission(step)
            &&& !sending(c.generic)
            &&& c.generic.announcer.sent == 0
            &&& init.generic.announcer.sent == 0
            &&& step is Perform ==> c.active()
            &&& step is Complete ==> c.stage is Done
        }),
{
    lemma_sound_start(name, cfg, stem);
    lemma_sound_count(init.generic, init.generic);
    if init.link.steps.len() > 0 {
        assert(!(init.link.steps[0].action is Transmit));
    }
}

/// One step of a sound configurator: it stays sound, and what holds of a
/// step of its generic configuration holds of its own.
pub proof fn lemma_configurator_advance(
    c: ConfiguratorView,
    init: ConfiguratorView,
    name: Seq<char>,
    cfg: GenericInterfaceConfig,
    stem: Seq<char>,
    outcome: Outcome,
)
    requires
        fresh_configurator(init, name, cfg, stem),
        configurator_sound(c, init),
    ensures
        ({
            let (next, step) = c.advance(outcome);
            &&& configurator_sound(next, init)
            &&& is_transmission(step) <==> sending(next.generic)
            &&& is_transmission(step) ==> is_announcement(step, name)
            &&& next.generic.announcer.sent == c.generic.announcer.sent + if is_transmission(
                step,
            ) {
                1nat
            } else {
                0nat
            }
            &&& sending(c.generic) && outcome is Finished ==> step == StepView::Perform(
                ActionView::Sleep(ANNOUNCEMENT_INTERVAL),
            )
            &&& !c.active() ==> next == c
            &&& c.active() && step is Perform ==> next.active()
            &&& c.active() && step is Complete ==> next.stage is Done
        }),
{
    lemma_sound_start(name, cfg, stem);
    lemma_sound_count(c.generic, init.generic);
    match c.stage {
        ConfiguratorStage::Link => {
            let (link, inner) = c.link.advance(outcome);
            if inner is Perform {
                assert(!(link.steps[link.cursor as int].action is Transmit));
            }
        },
        ConfiguratorStage::Generic => {
            lemma_sound_advance(c.generic, name, cfg, stem, outcome);
            let (generic, inner) = c.generic.advance(outcome);
            lemma_sound_count(generic, init.generic);
        },
        _ => {},
    }
}

} // verus!
