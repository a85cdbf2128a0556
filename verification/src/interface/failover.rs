//! The failover protocol: before the host claims a segment, it looks for a
//! router that serves it already, and if there is one it waits until that
//! router no longer answers.
use crate::link::dhcpc::{client_command, dhcp_client};
use crate::link::interface::{
    describe_command, flush_command, gateway_of, routes_command, Interface,
};
use crate::plan::{Action, ActionView, Error, ErrorView, Outcome, Step, StepView};
use vstd::prelude::*;
use vstd::string::*;

verus! {

/// Where the protocol stands: what it is waiting for.
#[derive(Clone, Copy, Debug, PartialEq, Eq)]
pub enum FailoverStage {
    /// Not started.
    Idle,
    /// The description is being set to `FAILOVER_PROBING`.
    Announcing,
    /// The DHCP client is looking for a lease.
    Probing,
    /// The description is being set to `FAILOVER_WAITING`.
    Marking,
    /// The routes are being listed.
    Routing,
    /// An echo is on its way to the gateway.
    Pinging,
    /// The pause between two echoes.
    Pausing,
    /// The addresses are being flushed.
    Flushing,
    /// Ended.
    Done,
    /// Stopped on a fatal condition.
    Failed,
}

/// The payload of an echo: eight zero bytes.
pub open spec fn echo_payload() -> Seq<u8> {
    seq![0u8, 0u8, 0u8, 0u8, 0u8, 0u8, 0u8, 0u8]
}

/// The seconds between two echoes.
pub const ECHO_INTERVAL: u64 = 2;

/// What a `Failover` stands for in contracts, with its texts and lists as
/// sequences.
pub ghost struct FailoverView {
    /// The interface.
    pub name: Seq<char>,
    pub stage: FailoverStage,
    /// The gateway that the routes showed; empty before that.
    pub gateway: Seq<char>,
    /// Whether a router was found, went away, and the segment was taken
    /// over from it.
    pub reclaimed: bool,
}

impl FailoverView {
    /// The protocol for the interface `name`, not yet started.
    pub open spec fn initial(name: Seq<char>) -> FailoverView {
        FailoverView {
            name,
            stage: FailoverStage::Idle,
            gateway: Seq::empty(),
            reclaimed: false,
        }
    }

    /// The action whose outcome is awaited.
    pub open spec fn awaited(self) -> ActionView {
        match self.stage {
            FailoverStage::Announcing => ActionView::Run(
                describe_command(self.name, "FAILOVER_PROBING"@),
            ),
            FailoverStage::Probing => ActionView::Run(client_command(self.name, true)),
            FailoverStage::Marking => ActionView::Run(
                describe_command(self.name, "FAILOVER_WAITING"@),
            ),
            FailoverStage::Routing => ActionView::Run(routes_command(self.name)),
            FailoverStage::Pinging => ActionView::Ping {
                address: self.gateway,
                payload: echo_payload(),
            },
            FailoverStage::Flushing => ActionView::Run(flush_command(self.name)),
            _ => ActionView::Sleep(ECHO_INTERVAL),
        }
    }

    /// Whether an outcome is awaited.
    pub open spec fn active(self) -> bool {
        !(self.stage is Idle) && !(self.stage is Done) && !(self.stage is Failed)
    }

    /// The protocol at `stage`, handing out the action of that stage.
    pub open spec fn at(self, stage: FailoverStage) -> (FailoverView, StepView) {
        let next = FailoverView { stage, ..self };
        (next, StepView::Perform(next.awaited()))
    }

    /// The protocol stopped by `error`.
    pub open spec fn stop(self, error: ErrorView) -> (FailoverView, StepView) {
        (FailoverView { stage: FailoverStage::Failed, ..self }, StepView::Abort(error))
    }

    /// The protocol at its end.
    pub open spec fn finish(self, reclaimed: bool) -> (FailoverView, StepView) {
        (FailoverView { stage: FailoverStage::Done, reclaimed, ..self }, StepView::Complete)
    }

    /// The first step: the description is set to `FAILOVER_PROBING`.
    pub open spec fn start(self) -> (FailoverView, StepView) {
        self.at(FailoverStage::Announcing)
    }

    /// The step after `outcome`.
    ///
    /// The probe is a DHCP client that does not stay in the background: a
    /// lease shows a router. Without one the protocol ends at once and the
    /// segment was never given up. With one, the gateway is read from the
    /// routes, and echoes go to it, two seconds apart, for as long as it
    /// answers; when it no longer does, the addresses are flushed and the
    /// segment counts as reclaimed. An echo without a reply is no error; a
    /// command that fails is one, the probe apart.
    pub open spec fn advance(self, outcome: Outcome) -> (FailoverView, StepView) {
        if !self.active() {
            (self, StepView::Complete)
        } else {
            match outcome {
                Outcome::Unperformed => self.stop(ErrorView::Unperformed(self.awaited())),
                Outcome::Finished { success, output } => match self.stage {
                    FailoverStage::Announcing => if success {
                        self.at(FailoverStage::Probing)
                    } else {
                        self.stop(ErrorView::Failed(self.awaited()))
                    },
                    FailoverStage::Probing => if success {
                        self.at(FailoverStage::Marking)
                    } else {
                        self.finish(false)
                    },
                    FailoverStage::Marking => if success {
                        self.at(FailoverStage::Routing)
                    } else {
                        self.stop(ErrorView::Failed(self.awaited()))
                    },
                    FailoverStage::Routing => if !success {
                        self.stop(ErrorView::Failed(self.awaited()))
                    } else {
                        match gateway_of(output@) {
                            Some(gateway) => FailoverView { gateway, ..self }.at(
                                FailoverStage::Pinging,
                            ),
                            None => self.stop(ErrorView::NoGateway(self.name)),
                        }
                    },
                    FailoverStage::Pinging => if success {
                        self.at(FailoverStage::Pausing)
                    } else {
                        self.at(FailoverStage::Flushing)
                    },
                    FailoverStage::Pausing => self.at(FailoverStage::Pinging),
                    FailoverStage::Flushing => if success {
                        self.finish(true)
                    } else {
                        self.stop(ErrorView::Failed(self.awaited()))
                    },
                    _ => (self, StepView::Complete),
                },
            }
        }
    }
}

/// The failover protocol of one interface.
pub struct Failover {
    interface: Interface,
    stage: FailoverStage,
    gateway: String,
    reclaimed: bool,
}

impl View for Failover {
    type V = FailoverView;

    closed spec fn view(&self) -> FailoverView {
        FailoverView {
            name: self.interface.name@,
            stage: self.stage,
            gateway: self.gateway@,
            reclaimed: self.reclaimed,
        }
    }
}

/// The protocol for `interface`, not yet started. `ifname` is the name of
/// the interface in messages; the commands go by the name in `interface`.
pub fn failover(interface: &Interface, ifname: &String) -> (r: Failover)
    ensures
        r@ == FailoverView::initial(interface.name@),
{
    Failover {
        interface: Interface { name: interface.name.clone() },
        stage: FailoverStage::Idle,
        gateway: String::new(),
        reclaimed: false,
    }
}

impl Failover {
    /// Where the protocol stands.
    pub fn stage(&self) -> (r: FailoverStage)
        ensures
            r == self@.stage,
    {
        self.stage
    }

    /// Whether the segment was reclaimed from a router that went away.
    pub fn reclaimed(&self) -> (r: bool)
        ensures
            r == self@.reclaimed,
    {
        self.reclaimed
    }

    /// Whether an outcome is awaited.
    pub fn active(&self) -> (r: bool)
        ensures
            r == self@.active(),
    {
        match self.stage {
            FailoverStage::Idle => false,
            FailoverStage::Done => false,
            FailoverStage::Failed => false,
            _ => true,
        }
    }

    fn awaited(&self) -> (action: Action)
        ensures
            action@ == self@.awaited(),
    {
        match self.stage {
            FailoverStage::Announcing => Action::Run(
                self.interface.set_description("FAILOVER_PROBING"),
            ),
            FailoverStage::Probing => Action::Run(dhcp_client(&self.interface, true)),
            FailoverStage::Marking => Action::Run(
                self.interface.set_description("FAILOVER_WAITING"),
            ),
            FailoverStage::Routing => Action::Run(self.interface.routes()),
            FailoverStage::Pinging => {
                let mut payload: Vec<u8> = Vec::new();
                let mut i: usize = 0;
                while i < 8
                    invariant
                        i <= 8,
                        payload@ == echo_payload().take(i as int),
                    decreases 8 - i,
                {
                    payload.push(0);
                    assert(echo_payload().take(i + 1) =~= echo_payload().take(i as int).push(0u8));
                    i += 1;
                }
                assert(echo_payload().take(8) =~= echo_payload());
                Action::Ping { address: self.gateway.clone(), payload }
            },
            FailoverStage::Flushing => Action::Run(self.interface.flush_addresses()),
            _ => Action::Sleep(ECHO_INTERVAL),
        }
    }

    fn at(&mut self, stage: FailoverStage) -> (step: Step)
        ensures
            (final(self)@, step@) == old(self)@.at(stage),
    {
        self.stage = stage;
        Step::Perform(self.awaited())
    }

    fn stop(&mut self, error: Error) -> (step: Step)
        ensures
            (final(self)@, step@) == old(self)@.stop(error@),
    {
        self.stage = FailoverStage::Failed;
        Step::Abort(error)
    }

    fn finish(&mut self, reclaimed: bool) -> (step: Step)
        ensures
            (final(self)@, step@) == old(self)@.finish(reclaimed),
    {
        self.stage = FailoverStage::Done;
        self.reclaimed = reclaimed;
        Step::Complete
    }

    /// Starts the protocol and hands out its first action.
    pub fn start(&mut self) -> (step: Step)
        ensures
            (final(self)@, step@) == old(self)@.start(),
    {
        self.at(FailoverStage::Announcing)
    }

    /// Takes the outcome of the awaited action and hands out what follows.
    /// Where no action is awaited, before the start or after the end, it
    /// hands out `Complete` and changes nothing.
    pub fn advance(&mut self, outcome: &Outcome) -> (step: Step)
        ensures
            (final(self)@, step@) == old(self)@.advance(*outcome),
    {
        if !self.active() {
            return Step::Complete;
        }
        match outcome {
            Outcome::Unperformed => {
                let action = self.awaited();
                self.stop(Error::Unperformed(action))
            },
            Outcome::Finished { success, output } => {
                let success = *success;
                match self.stage {
                    FailoverStage::Announcing => {
                        if success {
                            self.at(FailoverStage::Probing)
                        } else {
                            let action = self.awaited();
                            self.stop(Error::Failed(action))
                        }
                    },
                    FailoverStage::Probing => {
                        if success {
                            self.at(FailoverStage::Marking)
                        } else {
                            self.finish(false)
                        }
                    },
                    FailoverStage::Marking => {
                        if success {
                            self.at(FailoverStage::Routing)
                        } else {
                            let action = self.awaited();
                            self.stop(Error::Failed(action))
                        }
                    },
                    FailoverStage::Routing => {
                        if !success {
                            let action = self.awaited();
                            return self.stop(Error::Failed(action));
                        }
                        match Interface::get_gateway(output.as_str()) {
                            Some(gateway) => {
                                self.gateway = gateway;
                                self.at(FailoverStage::Pinging)
                            },
                            None => {
                                let name = self.interface.name.clone();
                                self.stop(Error::NoGateway(name))
                            },
                        }
                    },
                    FailoverStage::Pinging => {
                        if success {
                            self.at(FailoverStage::Pausing)
                        } else {
                            self.at(FailoverStage::Flushing)
                        }
                    },
                    FailoverStage::Pausing => self.at(FailoverStage::Pinging),
                    FailoverStage::Flushing => {
                        if success {
                            self.finish(true)
                        } else {
                            let action = self.awaited();
                            self.stop(Error::Failed(action))
                        }
                    },
                    _ => Step::Complete,
                }
            },
        }
    }
}

impl FailoverView {
    /// The protocol after `start` and one `advance` for each of `outcomes`.
    pub open spec fn run(self, outcomes: Seq<Outcome>) -> FailoverView
        decreases outcomes.len(),
    {
        if outcomes.len() == 0 {
            self.start().0
        } else {
            self.run(outcomes.drop_last()).advance(outcomes.last()).0
        }
    }
}

/// Whether, in the protocol of `name` driven by `outcomes`, the outcome at
/// index `j` is that of an echo to the gateway, and no reply came.
pub open spec fn silent_at(name: Seq<char>, outcomes: Seq<Outcome>, j: int) -> bool {
    let before = FailoverView::initial(name).run(outcomes.take(j));
    &&& 0 <= j < outcomes.len()
    &&& before.stage is Pinging
    &&& outcomes[j] is Finished
    &&& !outcomes[j].succeeded()
}

/// Whether, in the protocol of `name` driven by `outcomes`, the outcome at
/// index `j` is that of the flush of the addresses, and the flush
/// succeeded.
pub open spec fn flushed_at(name: Seq<char>, outcomes: Seq<Outcome>, j: int) -> bool {
    let before = FailoverView::initial(name).run(outcomes.take(j));
    &&& 0 <= j < outcomes.len()
    &&& before.stage is Flushing
    &&& before.awaited() == ActionView::Run(flush_command(name))
    &&& outcomes[j].succeeded()
}

/// Whether an echo got no reply and the flush that followed succeeded: the
/// outcomes at `j` and at `j + 1`.
pub open spec fn taken_over_at(name: Seq<char>, outcomes: Seq<Outcome>, j: int) -> bool {
    silent_at(name, outcomes, j) && flushed_at(name, outcomes, j + 1)
}

/// Whether the probe, whose outcome is the second of `outcomes`, found a
/// router.
pub open spec fn router_found(outcomes: Seq<Outcome>) -> bool {
    outcomes.len() >= 2 && outcomes[1].succeeded()
}

/// What the stage of the protocol says of the outcomes that led to it.
spec fn explained(f: FailoverView, name: Seq<char>, outcomes: Seq<Outcome>) -> bool {
    &&& f.name == name
    &&& f.stage is Announcing ==> outcomes.len() == 0
    &&& f.stage is Probing ==> outcomes.len() == 1
    &&& (f.stage is Marking || f.stage is Routing || f.stage is Pinging || f.stage is Pausing
        || f.stage is Flushing) ==> router_found(outcomes)
    &&& f.stage is Flushing ==> silent_at(name, outcomes, outcomes.len() - 1)
    &&& f.reclaimed ==> f.stage is Done && router_found(outcomes) && exists|j: int|
        taken_over_at(name, outcomes, j)
    &&& f.stage is Done && !f.reclaimed ==> outcomes.len() >= 2 && outcomes[1] is Finished
        && !outcomes[1].succeeded()
    &&& !(f.stage is Idle)
}

proof fn lemma_silence_stays(name: Seq<char>, outcomes: Seq<Outcome>, n: int, j: int)
    requires
        0 <= n <= outcomes.len(),
        silent_at(name, outcomes.take(n), j),
    ensures
        silent_at(name, outcomes, j),
{
    assert(outcomes.take(n).take(j) =~= outcomes.take(j));
}

proof fn lemma_take_over_stays(name: Seq<char>, outcomes: Seq<Outcome>, n: int)
    requires
        0 <= n <= outcomes.len(),
        exists|j: int| taken_over_at(name, outcomes.take(n), j),
    ensures
        exists|j: int| taken_over_at(name, outcomes, j),
{
    let j = choose|j: int| taken_over_at(name, outcomes.take(n), j);
    assert(outcomes.take(n).take(j) =~= outcomes.take(j));
    assert(outcomes.take(n).take(j + 1) =~= outcomes.take(j + 1));
    assert(taken_over_at(name, outcomes, j));
}

proof fn lemma_explained(name: Seq<char>, outcomes: Seq<Outcome>)
    ensures
        explained(FailoverView::initial(name).run(outcomes), name, outcomes),
    decreases outcomes.len(),
{
    let init = FailoverView::initial(name);
    if outcomes.len() > 0 {
        let earlier = outcomes.drop_last();
        lemma_explained(name, earlier);
        let before = init.run(earlier);
        let next = before.advance(outcomes.last()).0;
        let n = outcomes.len() - 1;
        assert(earlier =~= outcomes.take(n));
        if exists|j: int| taken_over_at(name, earlier, j) {
            lemma_take_over_stays(name, outcomes, n);
        }
        if before.stage is Pinging && next.stage is Flushing {
            assert(silent_at(name, outcomes, n));
        }
        if before.stage is Flushing && next.reclaimed {
            lemma_silence_stays(name, outcomes, n, n - 1);
            assert(flushed_at(name, outcomes, n));
            assert(taken_over_at(name, outcomes, n - 1));
        }
        if earlier.len() >= 2 {
            assert(earlier[1] == outcomes[1]);
        }
    }
}

/// When a segment counts as reclaimed.
///
/// Of the protocol of an interface, started and then advanced once for
/// each of `outcomes`: if the segment counts as reclaimed, then the probe
/// found a router, an echo to the gateway got no reply, the flush of the
/// addresses came next and succeeded, and the protocol has ended; and if
/// the protocol has ended without reclaiming, then the probe found no
/// router.
pub proof fn lemma_reclaimed_after_silence(name: Seq<char>, outcomes: Seq<Outcome>)
    ensures
        ({
            let f = FailoverView::initial(name).run(outcomes);
            &&& f.reclaimed ==> f.stage is Done && router_found(outcomes) && exists|j: int|
                taken_over_at(name, outcomes, j)
            &&& f.stage is Done && !f.reclaimed ==> outcomes.len() >= 2 && outcomes[1] is Finished
                && !outcomes[1].succeeded()
        }),
{
    lemma_explained(name, outcomes);
}

} // verus!
