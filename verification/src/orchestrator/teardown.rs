//! Teardown: the mirror of configuration. Each interface is taken down by
//! its kind, between its hooks and after its services were stopped; then
//! the renames are taken back.
use crate::config::interfaceconfig::{InterfaceConfig, InterfaceTypeConfig};
use crate::config::{rename_pairs, Config};
use crate::hooks::{hook_action, interface_hook};
use crate::link::interface::{
    delete_command, describe_command, down_command, flush_command, nomaster_command,
    show_command, Interface,
};
use crate::orchestrator::{fresh, push_services, service_steps};
use crate::plan::{
    closes, guards, instructions, lemma_lenient_run, may, must, needs, push_instruction, Action,
    ActionView, Instruction, InstructionView, Outcome, Script, StepView,
};
use crate::renames::undo_steps;
use crate::text::texts;
use vstd::prelude::*;
use vstd::string::*;

verus! {

/// The instructions that release the members of a bridge, in their order:
/// a member that is there is released from the bridge and brought down; one
/// that is not there is left out.
pub open spec fn detach_steps(members: Seq<Seq<char>>) -> Seq<InstructionView>
    decreases members.len(),
{
    if members.len() == 0 {
        Seq::empty()
    } else {
        let member = members.last();
        detach_steps(members.drop_last()) + seq![
            guards(ActionView::Run(show_command(member)), 2),
            must(ActionView::Run(nomaster_command(member))),
            must(ActionView::Run(down_command(member))),
        ]
    }
}

/// The instructions that take the link `name` down: it is brought down,
/// its addresses are flushed and its description is cleared.
pub open spec fn clear_steps(name: Seq<char>) -> Seq<InstructionView> {
    seq![
        must(ActionView::Run(down_command(name))),
        must(ActionView::Run(flush_command(name))),
        must(ActionView::Run(describe_command(name, ""@))),
    ]
}

/// The teardown of the interface by its kind. An Ethernet interface must
/// be there. A bridge that is no longer there ends the task at once and
/// without an error; one that is there has its members released, is
/// cleared, and is deleted.
pub open spec fn release_steps(name: Seq<char>, cfg: InterfaceConfig) -> Seq<InstructionView> {
    match cfg.specific {
        InterfaceTypeConfig::Ethernet(_) => seq![
            needs(ActionView::Run(show_command(name)), name),
        ] + clear_steps(name),
        InterfaceTypeConfig::Bridge(bridge) => seq![closes(ActionView::Run(show_command(name)))]
            + detach_steps(texts(bridge.interfaces@)) + clear_steps(name).push(
            must(ActionView::Run(delete_command(name))),
        ),
    }
}

/// The teardown of one interface: the hook before, the services stopped,
/// the link taken down by its kind, the hook after.
pub open spec fn reset_steps(name: Seq<char>, cfg: InterfaceConfig) -> Seq<InstructionView> {
    seq![may(hook_action("pre-down"@, name))] + service_steps(
        texts(cfg.shared.services@),
        "stop"@,
    ) + release_steps(name, cfg) + seq![may(hook_action("post-down"@, name))]
}

/// The renames taken back.
pub fn undo_renames(config: &Config) -> (r: Script)
    ensures
        r@ == fresh(undo_steps(rename_pairs(config.renames@))),
{
    let mut steps: Vec<Instruction> = Vec::new();
    let ghost pairs = rename_pairs(config.renames@);
    assert(instructions(steps@) =~= Seq::<InstructionView>::empty());
    let mut i: usize = config.renames.len();
    assert(pairs.take(i as int) =~= pairs);
    while i > 0
        invariant
            i <= config.renames.len(),
            pairs == rename_pairs(config.renames@),
            instructions(steps@) + undo_steps(pairs.take(i as int)) == undo_steps(pairs),
        decreases i,
    {
        let from = config.renames[i - 1].0.as_str();
        let to = config.renames[i - 1].1.as_str();
        let mut interface = Interface::get_from_name(to);
        let ghost before = instructions(steps@);
        push_instruction(&mut steps, Instruction::guards(Action::Run(interface.is_present()), 1));
        push_instruction(&mut steps, Instruction::must(Action::Run(interface.rename(from))));
        proof {
            let now = pairs.take(i as int);
            assert(now.drop_last() =~= pairs.take(i - 1));
            assert(now.last() == (from@, to@));
            assert(instructions(steps@) + undo_steps(pairs.take(i - 1)) =~= before + undo_steps(
                now,
            ));
        }
        i -= 1;
    }
    assert(pairs.take(0) =~= Seq::<(Seq<char>, Seq<char>)>::empty());
    assert(instructions(steps@) =~= undo_steps(pairs));
    Script::new(steps)
}

/// Appends the instructions that take the link of `interface` down.
fn push_clear(steps: &mut Vec<Instruction>, interface: &Interface)
    ensures
        instructions(final(steps)@) == instructions(old(steps)@) + clear_steps(interface.name@),
{
    push_instruction(steps, Instruction::must(Action::Run(interface.down())));
    push_instruction(steps, Instruction::must(Action::Run(interface.flush_addresses())));
    push_instruction(steps, Instruction::must(Action::Run(interface.set_description(""))));
    assert(instructions(steps@) =~= instructions(old(steps)@) + clear_steps(interface.name@));
}

/// Appends the instructions that release the members of a bridge.
fn push_detach(steps: &mut Vec<Instruction>, members: &Vec<String>)
    ensures
        instructions(final(steps)@) == instructions(old(steps)@) + detach_steps(texts(members@)),
{
    let ghost before = instructions(steps@);
    let ghost all = texts(members@);
    assert(all.take(0) =~= Seq::<Seq<char>>::empty());
    assert(instructions(steps@) =~= before + detach_steps(all.take(0)));
    let mut i: usize = 0;
    while i < members.len()
        invariant
            i <= members.len(),
            all == texts(members@),
            instructions(steps@) == before + detach_steps(all.take(i as int)),
        decreases members.len() - i,
    {
        let member = Interface::get_from_name(members[i].as_str());
        push_instruction(steps, Instruction::guards(Action::Run(member.is_present()), 2));
        push_instruction(steps, Instruction::must(Action::Run(member.set_nomaster())));
        push_instruction(steps, Instruction::must(Action::Run(member.down())));
        proof {
            let next = all.take(i + 1);
            assert(next.drop_last() =~= all.take(i as int));
            assert(next.last() == members[i as int]@);
            assert(instructions(steps@) =~= before + detach_steps(next));
        }
        i += 1;
    }
    assert(all.take(i as int) =~= all);
}

/// The teardown of the interface `name` as `ifconfig` declares it.
pub fn reset_interface(name: &String, ifconfig: &InterfaceConfig) -> (r: Script)
    ensures
        r@ == fresh(reset_steps(name@, *ifconfig)),
{
    let interface = Interface::get_from_name(name.as_str());
    let mut steps: Vec<Instruction> = Vec::new();
    assert(instructions(steps@) =~= Seq::<InstructionView>::empty());
    push_instruction(&mut steps, Instruction::may(interface_hook("pre-down", name.as_str())));
    push_services(&mut steps, &ifconfig.shared.services, "stop");
    let ghost opening = instructions(steps@);
    match &ifconfig.specific {
        InterfaceTypeConfig::Ethernet(_) => {
            push_instruction(
                &mut steps,
                Instruction::needs(Action::Run(interface.is_present()), name.as_str()),
            );
            push_clear(&mut steps, &interface);
        },
        InterfaceTypeConfig::Bridge(bridge) => {
            push_instruction(&mut steps, Instruction::closes(Action::Run(interface.is_present())));
            push_detach(&mut steps, &bridge.interfaces);
            push_clear(&mut steps, &interface);
            push_instruction(&mut steps, Instruction::must(Action::Run(interface.delete())));
        },
    }
    assert(instructions(steps@) =~= opening + release_steps(name@, *ifconfig));
    push_instruction(&mut steps, Instruction::may(interface_hook("post-down", name.as_str())));
    assert(instructions(steps@) =~= reset_steps(name@, *ifconfig));
    Script::new(steps)
}

proof fn lemma_services_lenient(services: Seq<Seq<char>>, verb: Seq<char>)
    ensures
        service_steps(services, verb).len() == services.len(),
        forall|i: int|
            0 <= i < services.len() ==> (#[trigger] service_steps(services, verb)[i]).on_failure
                is Ignored,
    decreases services.len(),
{
    if services.len() > 0 {
        lemma_services_lenient(services.drop_last(), verb);
    }
}

/// The teardown of a bridge that is gone.
///
/// Of the teardown of a bridge, however often it is asked for: its first
/// instructions, the hook and the services, stop nothing; the next one
/// looks for the bridge; and if the bridge is not there, the script ends
/// at once, without an error and without another action.
pub proof fn lemma_absent_bridge(
    name: Seq<char>,
    cfg: InterfaceConfig,
    outcomes: Seq<Outcome>,
    absent: Outcome,
)
    requires
        cfg.specific is Bridge,
        outcomes.len() == 1 + cfg.shared.services.len(),
        forall|i: int| 0 <= i < outcomes.len() ==> #[trigger] outcomes[i] is Finished,
        absent is Finished,
        !absent.succeeded(),
    ensures
        ({
            let script = fresh(reset_steps(name, cfg));
            let (end, steps) = script.run(outcomes.push(absent));
            &&& steps.len() == outcomes.len() + 2
            &&& forall|i: int| 0 <= i < steps.len() - 1 ==> #[trigger] steps[i] is Perform
            &&& steps[outcomes.len() as int] == StepView::Perform(
                ActionView::Run(show_command(name)),
            )
            &&& steps.last() == StepView::Complete
            &&& end.ended()
        }),
{
    let services = texts(cfg.shared.services@);
    lemma_services_lenient(services, "stop"@);
    let script = fresh(reset_steps(name, cfg));
    let at = outcomes.len() as int;
    assert(script.steps[at] == closes(ActionView::Run(show_command(name))));
    assert forall|i: int| 0 <= i < at implies (#[trigger] script.steps[i]).on_failure
        is Ignored by {
        if i > 0 {
            assert(script.steps[i] == service_steps(services, "stop"@)[i - 1]);
        }
    }
    lemma_lenient_run(script, outcomes);
    let all = outcomes.push(absent);
    assert(all.drop_last() =~= outcomes);
    assert(all.last() == absent);
}

} // verus!
