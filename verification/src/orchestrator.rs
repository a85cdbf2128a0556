//! The orchestrator: renames first, then the loopback, then one task for
//! each declared interface, which waits for the interfaces it depends on,
//! configures its own and starts its services; and the teardown that
//! mirrors it.
pub mod task;
pub mod teardown;

use crate::config::{rename_pairs, Config};
use crate::link::interface::{push_text, show_command, up_command, Interface};
use crate::orchestrator::task::{fresh_task, InterfaceTask};
use crate::orchestrator::teardown::{reset_interface, reset_steps, undo_renames};
use crate::plan::{
    instructions, may, must, needs, push_instruction, silent, Action, ActionView, Command,
    CommandView, Instruction, InstructionView, Script, ScriptView,
};
use crate::renames::{rename_steps, undo_steps};
use crate::text::texts;
use vstd::prelude::*;
use vstd::string::*;

verus! {

/// `rc-service SERVICE VERB`
pub open spec fn service_command(service: Seq<char>, verb: Seq<char>) -> CommandView {
    CommandView { program: "rc-service"@, args: seq![service, verb] }
}

/// One call of the service manager for each service, in their order. A
/// service that does not start or stop holds nothing up.
pub open spec fn service_steps(services: Seq<Seq<char>>, verb: Seq<char>) -> Seq<InstructionView>
    decreases services.len(),
{
    if services.len() == 0 {
        Seq::empty()
    } else {
        service_steps(services.drop_last(), verb).push(
            may(ActionView::Run(service_command(services.last(), verb))),
        )
    }
}

/// The call of the service manager.
pub fn service(name: &str, verb: &str) -> (c: Command)
    ensures
        c@ == service_command(name@, verb@),
{
    let mut args: Vec<String> = Vec::new();
    push_text(&mut args, name);
    push_text(&mut args, verb);
    assert(texts(args@) =~= seq![name@, verb@]);
    Command { program: String::from_str("rc-service"), args }
}

/// Appends one call of the service manager for each service.
pub fn push_services(steps: &mut Vec<Instruction>, services: &Vec<String>, verb: &str)
    ensures
        instructions(final(steps)@) == instructions(old(steps)@) + service_steps(
            texts(services@),
            verb@,
        ),
{
    let ghost before = instructions(steps@);
    let ghost all = texts(services@);
    assert(all.take(0) =~= Seq::<Seq<char>>::empty());
    assert(instructions(steps@) =~= before + service_steps(all.take(0), verb@));
    let mut i: usize = 0;
    while i < services.len()
        invariant
            i <= services.len(),
            all == texts(services@),
            instructions(steps@) == before + service_steps(all.take(i as int), verb@),
        decreases services.len() - i,
    {
        push_instruction(steps, Instruction::may(Action::Run(service(services[i].as_str(), verb))));
        proof {
            let next = all.take(i + 1);
            assert(next.drop_last() =~= all.take(i as int));
            assert(next.last() == services[i as int]@);
            assert(instructions(steps@) =~= before + service_steps(next, verb@));
        }
        i += 1;
    }
    assert(all.take(i as int) =~= all);
}

/// The instructions that bring the loopback interface up: it must be
/// there.
pub open spec fn loopback_steps() -> Seq<InstructionView> {
    seq![
        needs(ActionView::Run(show_command("lo"@)), "lo"@),
        must(ActionView::Run(up_command("lo"@))),
    ]
}

/// What comes before any interface is configured: the renames, then the
/// loopback unless it is left alone.
pub open spec fn prelude_steps(pairs: Seq<(Seq<char>, Seq<char>)>, loopback: bool) -> Seq<
    InstructionView,
> {
    if loopback {
        rename_steps(pairs) + loopback_steps()
    } else {
        rename_steps(pairs)
    }
}

/// A script of `steps`, not yet started.
pub open spec fn fresh(steps: Seq<InstructionView>) -> ScriptView {
    ScriptView { steps, cursor: 0 }
}

/// What comes before any interface is configured.
pub fn prelude(config: &Config, no_lo_up: bool) -> (r: Script)
    ensures
        r@ == fresh(prelude_steps(rename_pairs(config.renames@), !no_lo_up)),
{
    let mut steps: Vec<Instruction> = Vec::new();
    let ghost pairs = rename_pairs(config.renames@);
    assert(instructions(steps@) =~= Seq::<InstructionView>::empty());
    assert(pairs.take(0) =~= Seq::<(Seq<char>, Seq<char>)>::empty());
    let mut i: usize = 0;
    while i < config.renames.len()
        invariant
            i <= config.renames.len(),
            pairs == rename_pairs(config.renames@),
            instructions(steps@) == rename_steps(pairs.take(i as int)),
        decreases config.renames.len() - i,
    {
        let from = config.renames[i].0.as_str();
        let to = config.renames[i].1.as_str();
        let mut interface = Interface::get_from_name(from);
        push_instruction(&mut steps, Instruction::needs(Action::Run(interface.is_present()), from));
        push_instruction(&mut steps, Instruction::must(Action::Run(interface.rename(to))));
        proof {
            let next = pairs.take(i + 1);
            assert(next.drop_last() =~= pairs.take(i as int));
            assert(next.last() == (from@, to@));
            assert(instructions(steps@) =~= rename_steps(next));
        }
        i += 1;
    }
    assert(pairs.take(i as int) =~= pairs);
    if !no_lo_up {
        let lo = Interface::get_from_name("lo");
        push_instruction(&mut steps, Instruction::needs(Action::Run(lo.is_present()), "lo"));
        push_instruction(&mut steps, Instruction::must(Action::Run(lo.up())));
        assert(instructions(steps@) =~= rename_steps(pairs) + loopback_steps());
    }
    Script::new(steps)
}

/// One configuration pass: what comes first, and then one task for each
/// interface. The tasks may run side by side; the pass is over when each of
/// them has ended.
pub struct Configuration {
    pub prelude: Script,
    pub tasks: Vec<InterfaceTask>,
}

/// One teardown pass: one script for each interface, which may run side by
/// side, and, once each of them has ended, the renames taken back.
pub struct Teardown {
    pub tasks: Vec<Script>,
    pub renames: Script,
}

/// The configuration pass for `config`. With `no_lo_up` the loopback
/// interface is left alone.
pub fn configure(config: &Config, no_lo_up: bool) -> (r: Configuration)
    ensures
        r.prelude@ == fresh(prelude_steps(rename_pairs(config.renames@), !no_lo_up)),
        r.tasks.len() == config.interfaces.len(),
        forall|i: int|
            0 <= i < r.tasks.len() ==> fresh_task(
                (#[trigger] r.tasks[i])@,
                config.interfaces[i].0@,
                config.interfaces[i].1,
            ),
{
    let mut tasks: Vec<InterfaceTask> = Vec::new();
    let mut i: usize = 0;
    while i < config.interfaces.len()
        invariant
            i <= config.interfaces.len(),
            tasks.len() == i,
            forall|k: int|
                0 <= k < i ==> fresh_task(
                    (#[trigger] tasks[k])@,
                    config.interfaces[k].0@,
                    config.interfaces[k].1,
                ),
        decreases config.interfaces.len() - i,
    {
        let task = InterfaceTask::new(&config.interfaces[i].0, &config.interfaces[i].1);
        tasks.push(task);
        i += 1;
    }
    Configuration { prelude: prelude(config, no_lo_up), tasks }
}

/// The teardown pass for `config`.
pub fn reset(config: &Config) -> (r: Teardown)
    ensures
        r.renames@ == fresh(undo_steps(rename_pairs(config.renames@))),
        r.tasks.len() == config.interfaces.len(),
        forall|i: int|
            0 <= i < r.tasks.len() ==> (#[trigger] r.tasks[i])@ == fresh(
                reset_steps(config.interfaces[i].0@, config.interfaces[i].1),
            ),
{
    let mut tasks: Vec<Script> = Vec::new();
    let mut i: usize = 0;
    while i < config.interfaces.len()
        invariant
            i <= config.interfaces.len(),
            tasks.len() == i,
            forall|k: int|
                0 <= k < i ==> (#[trigger] tasks[k])@ == fresh(
                    reset_steps(config.interfaces[k].0@, config.interfaces[k].1),
                ),
        decreases config.interfaces.len() - i,
    {
        let task = reset_interface(&config.interfaces[i].0, &config.interfaces[i].1);
        tasks.push(task);
        i += 1;
    }
    Teardown { tasks, renames: undo_renames(config) }
}

/// The calls of the service manager put no frame on the wire.
pub proof fn lemma_services_silent(services: Seq<Seq<char>>, verb: Seq<char>)
    ensures
        silent(service_steps(services, verb)),
    decreases services.len(),
{
    if services.len() > 0 {
        lemma_services_silent(services.drop_last(), verb);
    }
}

} // verus!
