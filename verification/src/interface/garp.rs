//! The gratuitous announcements that follow a reclaimed segment: three
//! frames, a second apart, each built from the hardware address that the
//! link shows at that moment.
use crate::arp::{announce, gratuitous_frame, read_station, station_of};
use crate::link::interface::{show_command, Interface};
use crate::plan::{copy_bytes, Action, ActionView, Error, ErrorView, Outcome, Step, StepView};
use vstd::prelude::*;
use vstd::string::*;

verus! {

/// The number of announcements.
pub const ANNOUNCEMENTS: u8 = 3;

/// The seconds after each announcement.
pub const ANNOUNCEMENT_INTERVAL: u64 = 1;

/// Where the announcer stands: what it is waiting for.
#[derive(Clone, Copy, Debug, PartialEq, Eq)]
pub enum AnnouncerStage {
    /// Not started.
    Idle,
    /// The link is being listed, for its hardware address.
    Reading,
    /// A frame is being transmitted.
    Sending,
    /// The pause after a frame.
    Pausing,
    /// Ended.
    Done,
    /// Stopped on a fatal condition.
    Failed,
}

/// What an `Announcer` stands for in contracts, with its texts and lists as
/// sequences.
pub ghost struct AnnouncerView {
    /// The interface.
    pub name: Seq<char>,
    pub stage: AnnouncerStage,
    /// The number of frames handed out for transmission so far.
    pub sent: nat,
    /// The last frame handed out; empty before the first.
    pub frame: Seq<u8>,
}

impl AnnouncerView {
    /// The announcer for the interface `name`, not yet started.
    pub open spec fn initial(name: Seq<char>) -> AnnouncerView {
        AnnouncerView { name, stage: AnnouncerStage::Idle, sent: 0, frame: Seq::empty() }
    }

    /// The action whose outcome is awaited.
    pub open spec fn awaited(self) -> ActionView {
        match self.stage {
            AnnouncerStage::Reading => ActionView::Run(show_command(self.name)),
            AnnouncerStage::Sending => ActionView::Transmit { link: self.name, frame: self.frame },
            _ => ActionView::Sleep(ANNOUNCEMENT_INTERVAL),
        }
    }

    /// Whether an outcome is awaited.
    pub open spec fn active(self) -> bool {
        !(self.stage is Idle) && !(self.stage is Done) && !(self.stage is Failed)
    }

    /// The announcer at `stage`, handing out the action of that stage.
    pub open spec fn at(self, stage: AnnouncerStage) -> (AnnouncerView, StepView) {
        let next = AnnouncerView { stage, ..self };
        (next, StepView::Perform(next.awaited()))
    }

    /// The announcer stopped by `error`.
    pub open spec fn stop(self, error: ErrorView) -> (AnnouncerView, StepView) {
        (AnnouncerView { stage: AnnouncerStage::Failed, ..self }, StepView::Abort(error))
    }

    /// The announcer at its end.
    pub open spec fn finish(self) -> (AnnouncerView, StepView) {
        (AnnouncerView { stage: AnnouncerStage::Done, ..self }, StepView::Complete)
    }

    /// The announcer before a round: it lists the link if a frame is still
    /// due, and ends otherwise.
    pub open spec fn round(self) -> (AnnouncerView, StepView) {
        if self.sent < ANNOUNCEMENTS {
            self.at(AnnouncerStage::Reading)
        } else {
            self.finish()
        }
    }

    /// The first step: the link is listed.
    pub open spec fn start(self) -> (AnnouncerView, StepView) {
        self.round()
    }

    /// The step after `outcome`: the listing gives the hardware address,
    /// the frame announces it, a pause of a second follows the frame, and
    /// after the pause the next round begins, until three frames are out.
    /// A listing that fails, or that shows no hardware address that can be
    /// read, stops the task.
    pub open spec fn advance(self, outcome: Outcome) -> (AnnouncerView, StepView) {
        if !self.active() {
            (self, StepView::Complete)
        } else {
            match outcome {
                Outcome::Unperformed => self.stop(ErrorView::Unperformed(self.awaited())),
                Outcome::Finished { success, output } => match self.stage {
                    AnnouncerStage::Reading => if self.sent >= ANNOUNCEMENTS {
                        self.finish()
                    } else if !success {
                        self.stop(ErrorView::Failed(self.awaited()))
                    } else {
                        match station_of(output@) {
                            Some(mac) => AnnouncerView {
                                sent: self.sent + 1,
                                frame: gratuitous_frame(mac),
                                ..self
                            }.at(AnnouncerStage::Sending),
                            None => self.stop(ErrorView::NoHardwareAddress(self.name)),
                        }
                    },
                    AnnouncerStage::Sending => self.at(AnnouncerStage::Pausing),
                    AnnouncerStage::Pausing => self.round(),
                    _ => (self, StepView::Complete),
                },
            }
        }
    }
}

/// The announcer of one interface.
pub struct Announcer {
    interface: Interface,
    stage: AnnouncerStage,
    sent: u8,
    frame: Vec<u8>,
}

impl View for Announcer {
    type V = AnnouncerView;

    closed spec fn view(&self) -> AnnouncerView {
        AnnouncerView {
            name: self.interface.name@,
            stage: self.stage,
            sent: self.sent as nat,
            frame: self.frame@,
        }
    }
}

impl Announcer {
    /// The announcer for `interface`, not yet started.
    pub fn new(interface: &Interface) -> (r: Announcer)
        ensures
            r@ == AnnouncerView::initial(interface.name@),
    {
        Announcer {
            interface: Interface { name: interface.name.clone() },
            stage: AnnouncerStage::Idle,
            sent: 0,
            frame: Vec::new(),
        }
    }

    /// Where the announcer stands.
    pub fn stage(&self) -> (r: AnnouncerStage)
        ensures
            r == self@.stage,
    {
        self.stage
    }

    /// The number of frames handed out for transmission so far.
    pub fn sent(&self) -> (r: u8)
        ensures
            r == self@.sent,
    {
        self.sent
    }

    /// Whether an outcome is awaited.
    pub fn active(&self) -> (r: bool)
        ensures
            r == self@.active(),
    {
        match self.stage {
            AnnouncerStage::Idle => false,
            AnnouncerStage::Done => false,
            AnnouncerStage::Failed => false,
            _ => true,
        }
    }

    fn awaited(&self) -> (action: Action)
        ensures
            action@ == self@.awaited(),
    {
        match self.stage {
            AnnouncerStage::Reading => Action::Run(self.interface.show()),
            AnnouncerStage::Sending => Action::Transmit {
                link: self.interface.name.clone(),
                frame: copy_bytes(&self.frame),
            },
            _ => Action::Sleep(ANNOUNCEMENT_INTERVAL),
        }
    }

    fn at(&mut self, stage: AnnouncerStage) -> (step: Step)
        ensures
            (final(self)@, step@) == old(self)@.at(stage),
    {
        self.stage = stage;
        Step::Perform(self.awaited())
    }

    fn stop(&mut self, error: Error) -> (step: Step)
        ensures
            (final(self)@, step@) == old(self)@.stop(error@),
    {
        self.stage = AnnouncerStage::Failed;
        Step::Abort(error)
    }

    fn round(&mut self) -> (step: Step)
        ensures
            (final(self)@, step@) == old(self)@.round(),
    {
        if self.sent < ANNOUNCEMENTS {
            self.at(AnnouncerStage::Reading)
        } else {
            self.finish()
        }
    }

    fn finish(&mut self) -> (step: Step)
        ensures
            (final(self)@, step@) == old(self)@.finish(),
    {
        self.stage = AnnouncerStage::Done;
        Step::Complete
    }

    /// Starts the announcer and hands out its first action.
    pub fn start(&mut self) -> (step: Step)
        ensures
            (final(self)@, step@) == old(self)@.start(),
    {
        self.round()
    }

    /// Takes the outcome of the awaited action and hands out what follows.
    /// Where no action is awaited, before the start or after the end, it
    /// hands out `Complete` and changes nothing.
    pub fn advance(&mut self, outcome: &Outcome) -> (step: Step)
        ensures
            (final(self)@, step@) == old(self)@.advance(*outcome),
    {
        if !self.active() {
            return Step::Complete;
        }
        match outcome {
            Outcome::Unperformed => {
                let action = self.awaited();
                self.stop(Error::Unperformed(action))
            },
            Outcome::Finished { success, output } => {
                match self.stage {
                    AnnouncerStage::Reading => {
                        if self.sent >= ANNOUNCEMENTS {
                            return self.finish();
                        }
                        if !*success {
                            let action = self.awaited();
                            return self.stop(Error::Failed(action));
                        }
                        match read_station(output.as_str()) {
                            Some(mac) => {
                                let action = announce(&self.interface, &mac);
                                match &action {
                                    Action::Transmit { frame, .. } => {
                                        self.frame = copy_bytes(frame);
                                    },
                                    _ => {},
                                }
                                self.sent = self.sent + 1;
                                self.stage = AnnouncerStage::Sending;
                                Step::Perform(action)
                            },
                            None => {
                                let name = self.interface.name.clone();
                                self.stop(Error::NoHardwareAddress(name))
                            },
                        }
                    },
                    AnnouncerStage::Sending => self.at(AnnouncerStage::Pausing),
                    AnnouncerStage::Pausing => self.round(),
                    _ => Step::Complete,
                }
            },
        }
    }
}

} // verus!
