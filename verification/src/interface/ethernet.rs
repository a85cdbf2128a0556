//! The Ethernet configurator.
use crate::config::interfaceconfig::EthernetConfig;
use crate::hooks::{hook_action, interface_hook};
use crate::interface::generic::{generic_configuration, GenericConfiguration, GenericView};
use crate::interface::{fresh_configurator, Configurator, ConfiguratorStage, ConfiguratorView};
use crate::link::dhcpd::is_stem;
use crate::link::interface::{up_command, Interface};
use crate::plan::{
    instructions, may, must, push_instruction, Action, ActionView, Instruction, InstructionView,
    Script, ScriptView,
};
use vstd::prelude::*;
use vstd::string::*;

verus! {

/// The interfaces that are links of their own.
pub struct EthernetInterface {}

/// The instructions that bring the link `name` up, between its two hooks.
pub open spec fn ethernet_link_steps(name: Seq<char>) -> Seq<InstructionView> {
    seq![
        may(hook_action("pre-up"@, name)),
        must(ActionView::Run(up_command(name))),
        may(hook_action("post-up"@, name)),
    ]
}

/// The configurator of the Ethernet interface `name`, not yet started.
pub open spec fn ethernet_configurator(name: Seq<char>, ifconfig: EthernetConfig, stem: Seq<char>)
    -> ConfiguratorView {
    ConfiguratorView {
        link: ScriptView { steps: ethernet_link_steps(name), cursor: 0 },
        generic: GenericView::initial(name, ifconfig.generic, stem),
        stage: ConfiguratorStage::Idle,
    }
}

impl EthernetInterface {
    /// The instructions that bring the link up.
    pub fn link_steps(interface: &Interface) -> (r: Vec<Instruction>)
        ensures
            instructions(r@) == ethernet_link_steps(interface.name@),
    {
        let name = interface.name.as_str();
        let mut steps: Vec<Instruction> = Vec::new();
        assert(instructions(steps@) =~= Seq::<InstructionView>::empty());
        push_instruction(&mut steps, Instruction::may(interface_hook("pre-up", name)));
        push_instruction(&mut steps, Instruction::must(Action::Run(interface.up())));
        push_instruction(&mut steps, Instruction::may(interface_hook("post-up", name)));
        assert(instructions(steps@) =~= ethernet_link_steps(interface.name@));
        steps
    }

    /// The configuration of an Ethernet interface, not yet started: the
    /// link is brought up, then the generic configuration runs. The lease
    /// file of a DHCP server gets a stem drawn at random.
    pub fn configure(interface: &Interface, ifconfig: &EthernetConfig) -> (r: Configurator)
        ensures
            exists|stem: Seq<char>|
                is_stem(stem, 5) && r@ == ethernet_configurator(interface.name@, *ifconfig, stem),
    {
        let generic = generic_configuration(&ifconfig.generic, interface);
        Configurator::new(Script::new(Self::link_steps(interface)), generic)
    }

    /// The same with `stem` for the lease file.
    pub fn configure_with_stem(interface: &Interface, ifconfig: &EthernetConfig, stem: &str) -> (r:
        Configurator)
        ensures
            r@ == ethernet_configurator(interface.name@, *ifconfig, stem@),
    {
        let generic = GenericConfiguration::with_stem(&ifconfig.generic, interface, stem);
        Configurator::new(Script::new(Self::link_steps(interface)), generic)
    }
}

/// The configurator of an Ethernet interface starts fresh.
pub proof fn lemma_ethernet_fresh(name: Seq<char>, ifconfig: EthernetConfig, stem: Seq<char>)
    ensures
        fresh_configurator(
            ethernet_configurator(name, ifconfig, stem),
            name,
            ifconfig.generic,
            stem,
        ),
{
}

} // verus!
