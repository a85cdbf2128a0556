//! The bridge configurator.
use crate::config::interfaceconfig::BridgeConfig;
use crate::hooks::{hook_action, interface_hook};
use crate::interface::generic::{generic_configuration, GenericConfiguration, GenericView};
use crate::interface::{fresh_configurator, Configurator, ConfiguratorStage, ConfiguratorView};
use crate::link::dhcpd::is_stem;
use crate::link::interface::{create_command, master_command, show_command, up_command, Interface};
use crate::plan::{
    instructions, may, must, needs, push_instruction, silent, Action, ActionView, Instruction,
    InstructionView, Script, ScriptView,
};
use crate::text::texts;
use vstd::prelude::*;
use vstd::string::*;

verus! {

/// The interfaces that join other interfaces.
pub struct BridgeInterface {}

/// The instructions that attach `member` to `bridge`: the member must be
/// there, is brought up, and is given the bridge as its master.
pub open spec fn member_steps(bridge: Seq<char>, member: Seq<char>) -> Seq<InstructionView> {
    seq![
        needs(ActionView::Run(show_command(member)), member),
        must(ActionView::Run(up_command(member))),
        must(ActionView::Run(master_command(member, bridge))),
    ]
}

/// The instructions that attach `members` to `bridge`, in their order.
pub open spec fn members_steps(bridge: Seq<char>, members: Seq<Seq<char>>) -> Seq<InstructionView>
    decreases members.len(),
{
    if members.len() == 0 {
        Seq::empty()
    } else {
        members_steps(bridge, members.drop_last()) + member_steps(bridge, members.last())
    }
}

/// The instructions that create the bridge `name`, bring it up between its
/// two hooks, and attach its members.
pub open spec fn bridge_link_steps(name: Seq<char>, members: Seq<Seq<char>>) -> Seq<
    InstructionView,
> {
    seq![
        must(ActionView::Run(create_command(name, "bridge"@))),
        may(hook_action("pre-up"@, name)),
        must(ActionView::Run(up_command(name))),
        may(hook_action("post-up"@, name)),
    ] + members_steps(name, members)
}

/// The configurator of the bridge `name`, not yet started.
pub open spec fn bridge_configurator(name: Seq<char>, ifconfig: BridgeConfig, stem: Seq<char>)
    -> ConfiguratorView {
    ConfiguratorView {
        link: ScriptView {
            steps: bridge_link_steps(name, texts(ifconfig.interfaces@)),
            cursor: 0,
        },
        generic: GenericView::initial(name, ifconfig.generic, stem),
        stage: ConfiguratorStage::Idle,
    }
}

impl BridgeInterface {
    /// The instructions that create the bridge, bring it up and attach its
    /// members.
    pub fn link_steps(ifname: &String, ifconfig: &BridgeConfig) -> (r: Vec<Instruction>)
        ensures
            instructions(r@) == bridge_link_steps(ifname@, texts(ifconfig.interfaces@)),
    {
        let name = ifname.as_str();
        let bridge = Interface::get_from_name(name);
        let mut steps: Vec<Instruction> = Vec::new();
        assert(instructions(steps@) =~= Seq::<InstructionView>::empty());
        push_instruction(
            &mut steps,
            Instruction::must(Action::Run(Interface::create(name, "bridge"))),
        );
        push_instruction(&mut steps, Instruction::may(interface_hook("pre-up", name)));
        push_instruction(&mut steps, Instruction::must(Action::Run(bridge.up())));
        push_instruction(&mut steps, Instruction::may(interface_hook("post-up", name)));
        let ghost opening = instructions(steps@);
        let ghost members = texts(ifconfig.interfaces@);
        assert(members.take(0) =~= Seq::<Seq<char>>::empty());
        let mut i: usize = 0;
        while i < ifconfig.interfaces.len()
            invariant
                i <= ifconfig.interfaces.len(),
                members == texts(ifconfig.interfaces@),
                bridge.name@ == ifname@,
                name@ == ifname@,
                instructions(steps@) == opening + members_steps(ifname@, members.take(i as int)),
            decreases ifconfig.interfaces.len() - i,
        {
            let member = ifconfig.interfaces[i].as_str();
            let member_interface = Interface::get_from_name(member);
            push_instruction(
                &mut steps,
                Instruction::needs(Action::Run(member_interface.is_present()), member),
            );
            push_instruction(&mut steps, Instruction::must(Action::Run(member_interface.up())));
            push_instruction(
                &mut steps,
                Instruction::must(Action::Run(member_interface.set_master(name))),
            );
            proof {
                let next = members.take(i + 1);
                assert(next.drop_last() =~= members.take(i as int));
                assert(next.last() == member@);
                assert(instructions(steps@) =~= opening + members_steps(ifname@, next));
            }
            i += 1;
        }
        assert(members.take(i as int) =~= members);
        steps
    }

    /// The configuration of a bridge, not yet started: the bridge is
    /// created and brought up, its members are attached in the order in
    /// which they are declared, then the generic configuration runs on the
    /// bridge. A member that is missing, or that cannot be attached, stops
    /// the task. The lease file of a DHCP server gets a stem drawn at
    /// random.
    pub fn configure(ifname: &String, ifconfig: &BridgeConfig) -> (r: Configurator)
        ensures
            exists|stem: Seq<char>|
                is_stem(stem, 5) && r@ == bridge_configurator(ifname@, *ifconfig, stem),
    {
        let interface = Interface::get_from_name(ifname.as_str());
        let generic = generic_configuration(&ifconfig.generic, &interface);
        Configurator::new(Script::new(Self::link_steps(ifname, ifconfig)), generic)
    }

    /// The same with `stem` for the lease file.
    pub fn configure_with_stem(ifname: &String, ifconfig: &BridgeConfig, stem: &str) -> (r:
        Configurator)
        ensures
            r@ == bridge_configurator(ifname@, *ifconfig, stem@),
    {
        let interface = Interface::get_from_name(ifname.as_str());
        let generic = GenericConfiguration::with_stem(&ifconfig.generic, &interface, stem);
        Configurator::new(Script::new(Self::link_steps(ifname, ifconfig)), generic)
    }
}

proof fn lemma_members_silent(bridge: Seq<char>, members: Seq<Seq<char>>)
    ensures
        silent(members_steps(bridge, members)),
    decreases members.len(),
{
    if members.len() > 0 {
        lemma_members_silent(bridge, members.drop_last());
    }
}

/// The configurator of a bridge starts fresh.
pub proof fn lemma_bridge_fresh(name: Seq<char>, ifconfig: BridgeConfig, stem: Seq<char>)
    ensures
        fresh_configurator(bridge_configurator(name, ifconfig, stem), name, ifconfig.generic, stem),
{
    lemma_members_silent(name, texts(ifconfig.interfaces@));
}

} // verus!
