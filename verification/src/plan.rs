//! What the library asks of its caller and what the caller reports back:
//! actions, outcomes, errors, and scripts of instructions walked one outcome
//! at a time.
use crate::text::{copy_texts, texts};
use vstd::prelude::*;
use vstd::string::*;

verus! {

/// An external program with its arguments.
#[derive(Debug, PartialEq, Eq)]
pub struct Command {
    pub program: String,
    pub args: Vec<String>,
}

/// What a `Command` stands for in contracts, with its texts and lists as
/// sequences.
pub ghost struct CommandView {
    pub program: Seq<char>,
    pub args: Seq<Seq<char>>,
}

impl View for Command {
    type V = CommandView;

    open spec fn view(&self) -> CommandView {
        CommandView { program: self.program@, args: texts(self.args@) }
    }
}

/// One thing for the caller to carry out.
#[derive(Debug, PartialEq, Eq)]
pub enum Action {
    /// Run the program, wait for it, and report whether it exited with
    /// success and what it wrote to its standard output.
    Run(Command),
    /// Run the hook script at this path if the file is there.
    Hook(String),
    /// Pause for this many seconds.
    Sleep(u64),
    /// Send one ICMP echo with this payload to the address; success means
    /// that a reply came.
    Ping { address: String, payload: Vec<u8> },
    /// Put the frame on the wire of the named link.
    Transmit { link: String, frame: Vec<u8> },
    /// Create the directory if it is missing, write the lease file and
    /// start the server on it, without waiting for it.
    Serve { directory: String, path: String, contents: String, server: Command },
}

/// What an `Action` stands for in contracts, with its texts and lists as
/// sequences.
pub ghost enum ActionView {
    Run(CommandView),
    Hook(Seq<char>),
    Sleep(u64),
    Ping { address: Seq<char>, payload: Seq<u8> },
    Transmit { link: Seq<char>, frame: Seq<u8> },
    Serve { directory: Seq<char>, path: Seq<char>, contents: Seq<char>, server: CommandView },
}

impl View for Action {
    type V = ActionView;

    open spec fn view(&self) -> ActionView {
        match self {
            Action::Run(c) => ActionView::Run(c@),
            Action::Hook(p) => ActionView::Hook(p@),
            Action::Sleep(n) => ActionView::Sleep(*n),
            Action::Ping { address, payload } => ActionView::Ping {
                address: address@,
                payload: payload@,
            },
            Action::Transmit { link, frame } => ActionView::Transmit { link: link@, frame: frame@ },
            Action::Serve { directory, path, contents, server } => ActionView::Serve {
                directory: directory@,
                path: path@,
                contents: contents@,
                server: server@,
            },
        }
    }
}

/// Why a task stopped before its end.
#[derive(Debug, PartialEq, Eq)]
pub enum Error {
    /// The named interface does not exist.
    MissingInterface(String),
    /// The named interface is to get a static address, and its address or
    /// its prefix length is not configured.
    StaticNeedsAddress(String),
    /// The action ran and reported failure.
    Failed(Action),
    /// The action could not be carried out at all.
    Unperformed(Action),
    /// The route listing of the named interface shows no default gateway.
    NoGateway(String),
    /// The link listing of the named interface shows no hardware address
    /// that can be read.
    NoHardwareAddress(String),
    /// The link listing of the named interface ends where its description
    /// should stand.
    NoDescription(String),
}

/// What an `Error` stands for in contracts, with its texts and lists as
/// sequences.
pub ghost enum ErrorView {
    MissingInterface(Seq<char>),
    StaticNeedsAddress(Seq<char>),
    Failed(ActionView),
    Unperformed(ActionView),
    NoGateway(Seq<char>),
    NoHardwareAddress(Seq<char>),
    NoDescription(Seq<char>),
}

impl View for Error {
    type V = ErrorView;

    open spec fn view(&self) -> ErrorView {
        match self {
            Error::MissingInterface(n) => ErrorView::MissingInterface(n@),
            Error::StaticNeedsAddress(n) => ErrorView::StaticNeedsAddress(n@),
            Error::Failed(a) => ErrorView::Failed(a@),
            Error::Unperformed(a) => ErrorView::Unperformed(a@),
            Error::NoGateway(n) => ErrorView::NoGateway(n@),
            Error::NoHardwareAddress(n) => ErrorView::NoHardwareAddress(n@),
            Error::NoDescription(n) => ErrorView::NoDescription(n@),
        }
    }
}

/// What the caller reports of the action it was given.
#[derive(Debug, PartialEq, Eq)]
pub enum Outcome {
    /// The action could not be carried out: the program could not be
    /// started, the link could not be opened, the address could not be read.
    Unperformed,
    /// The action was carried out. `success` is the exit status of a
    /// program or the arrival of an echo reply, and true for an action that
    /// reports nothing; `output` is what a program wrote to its standard
    /// output.
    Finished { success: bool, output: String },
}

impl Outcome {
    /// Whether the action was carried out and reported success.
    pub open spec fn succeeded(self) -> bool {
        self matches Outcome::Finished { success, .. } && success
    }

    /// The standard output that came with the outcome.
    pub open spec fn text(self) -> Seq<char> {
        match self {
            Outcome::Unperformed => Seq::empty(),
            Outcome::Finished { output, .. } => output@,
        }
    }
}

/// What a task does when an action reports failure.
#[derive(Debug, PartialEq, Eq)]
pub enum Failure {
    /// The task stops with `Error::Failed`.
    Fatal,
    /// The task stops with `Error::MissingInterface` of this name.
    Missing(String),
    /// The task goes on.
    Ignored,
    /// The task leaves out this many of the instructions that follow.
    Skip(usize),
    /// The task leaves out all that follows, and is done.
    Finish,
}

/// What a `Failure` stands for in contracts, with its texts and lists as
/// sequences.
pub ghost enum FailureView {
    Fatal,
    Missing(Seq<char>),
    Ignored,
    Skip(nat),
    Finish,
}

impl View for Failure {
    type V = FailureView;

    open spec fn view(&self) -> FailureView {
        match self {
            Failure::Fatal => FailureView::Fatal,
            Failure::Missing(n) => FailureView::Missing(n@),
            Failure::Ignored => FailureView::Ignored,
            Failure::Skip(n) => FailureView::Skip(*n as nat),
            Failure::Finish => FailureView::Finish,
        }
    }
}

/// One step of a script: an action, and what its failure means.
#[derive(Debug, PartialEq, Eq)]
pub struct Instruction {
    pub action: Action,
    pub on_failure: Failure,
}

/// What an `Instruction` stands for in contracts, with its texts and lists as
/// sequences.
pub ghost struct InstructionView {
    pub action: ActionView,
    pub on_failure: FailureView,
}

impl View for Instruction {
    type V = InstructionView;

    open spec fn view(&self) -> InstructionView {
        InstructionView { action: self.action@, on_failure: self.on_failure@ }
    }
}

/// The views of a list of instructions.
pub open spec fn instructions(v: Seq<Instruction>) -> Seq<InstructionView> {
    Seq::new(v.len(), |i: int| v[i]@)
}

/// What a task hands to its caller: the next action, or its end.
#[derive(Debug, PartialEq, Eq)]
pub enum Step {
    /// Carry this out and report the outcome.
    Perform(Action),
    /// The task is done.
    Complete,
    /// The task has stopped on a fatal condition.
    Abort(Error),
}

/// What a `Step` stands for in contracts, with its texts and lists as
/// sequences.
pub ghost enum StepView {
    Perform(ActionView),
    Complete,
    Abort(ErrorView),
}

impl View for Step {
    type V = StepView;

    open spec fn view(&self) -> StepView {
        match self {
            Step::Perform(a) => StepView::Perform(a@),
            Step::Complete => StepView::Complete,
            Step::Abort(e) => StepView::Abort(e@),
        }
    }
}

/// Whether none of the instructions puts a frame on the wire.
pub open spec fn silent(steps: Seq<InstructionView>) -> bool {
    forall|i: int| 0 <= i < steps.len() ==> !((#[trigger] steps[i]).action is Transmit)
}

/// An instruction whose failure stops the task.
pub open spec fn must(action: ActionView) -> InstructionView {
    InstructionView { action, on_failure: FailureView::Fatal }
}

/// An instruction whose failure changes nothing.
pub open spec fn may(action: ActionView) -> InstructionView {
    InstructionView { action, on_failure: FailureView::Ignored }
}

/// An instruction whose failure means that the interface `name` is
/// missing, which stops the task.
pub open spec fn needs(action: ActionView, name: Seq<char>) -> InstructionView {
    InstructionView { action, on_failure: FailureView::Missing(name) }
}

/// An instruction whose failure leaves out the `count` instructions that
/// follow it.
pub open spec fn guards(action: ActionView, count: nat) -> InstructionView {
    InstructionView { action, on_failure: FailureView::Skip(count) }
}

/// An instruction whose failure ends the task without an error.
pub open spec fn closes(action: ActionView) -> InstructionView {
    InstructionView { action, on_failure: FailureView::Finish }
}

impl Command {
    /// A copy of the command.
    pub fn duplicate(&self) -> (r: Command)
        ensures
            r@ == self@,
    {
        Command { program: self.program.clone(), args: copy_texts(&self.args) }
    }
}

/// A copy of a list of bytes.
pub fn copy_bytes(v: &Vec<u8>) -> (r: Vec<u8>)
    ensures
        r@ == v@,
{
    let mut r: Vec<u8> = Vec::new();
    let mut i: usize = 0;
    while i < v.len()
        invariant
            i <= v.len(),
            r@ == v@.take(i as int),
        decreases v.len() - i,
    {
        r.push(v[i]);
        assert(v@.take(i + 1) =~= v@.take(i as int).push(v@[i as int]));
        i += 1;
    }
    assert(v@.take(v.len() as int) =~= v@);
    r
}

impl Action {
    /// A copy of the action.
    pub fn duplicate(&self) -> (r: Action)
        ensures
            r@ == self@,
    {
        match self {
            Action::Run(c) => Action::Run(c.duplicate()),
            Action::Hook(p) => Action::Hook(p.clone()),
            Action::Sleep(n) => Action::Sleep(*n),
            Action::Ping { address, payload } => Action::Ping {
                address: address.clone(),
                payload: copy_bytes(payload),
            },
            Action::Transmit { link, frame } => Action::Transmit {
                link: link.clone(),
                frame: copy_bytes(frame),
            },
            Action::Serve { directory, path, contents, server } => Action::Serve {
                directory: directory.clone(),
                path: path.clone(),
                contents: contents.clone(),
                server: server.duplicate(),
            },
        }
    }
}

impl Error {
    /// A copy of the error.
    pub fn duplicate(&self) -> (r: Error)
        ensures
            r@ == self@,
    {
        match self {
            Error::MissingInterface(n) => Error::MissingInterface(n.clone()),
            Error::StaticNeedsAddress(n) => Error::StaticNeedsAddress(n.clone()),
            Error::Failed(a) => Error::Failed(a.duplicate()),
            Error::Unperformed(a) => Error::Unperformed(a.duplicate()),
            Error::NoGateway(n) => Error::NoGateway(n.clone()),
            Error::NoHardwareAddress(n) => Error::NoHardwareAddress(n.clone()),
            Error::NoDescription(n) => Error::NoDescription(n.clone()),
        }
    }
}

/// Appends `instruction` to `v`.
pub fn push_instruction(v: &mut Vec<Instruction>, instruction: Instruction)
    ensures
        instructions(final(v)@) == instructions(old(v)@).push(instruction@),
{
    v.push(instruction);
    assert(instructions(v@) =~= instructions(old(v)@).push(instruction@));
}

impl Instruction {
    /// An instruction that stops the task with `Error::MissingInterface`
    /// of `name` when it fails.
    pub fn needs(action: Action, name: &str) -> (r: Instruction)
        ensures
            r@ == needs(action@, name@),
    {
        Instruction { action, on_failure: Failure::Missing(String::from_str(name)) }
    }

    /// An instruction whose failure leaves out the `count` instructions
    /// that follow it.
    pub fn guards(action: Action, count: usize) -> (r: Instruction)
        ensures
            r@ == guards(action@, count as nat),
    {
        Instruction { action, on_failure: Failure::Skip(count) }
    }

    /// An instruction whose failure ends the task without an error.
    pub fn closes(action: Action) -> (r: Instruction)
        ensures
            r@ == closes(action@),
    {
        Instruction { action, on_failure: Failure::Finish }
    }

    /// An instruction whose failure stops the task.
    pub fn must(action: Action) -> (r: Instruction)
        ensures
            r@ == must(action@),
    {
        Instruction { action, on_failure: Failure::Fatal }
    }

    /// An instruction whose failure changes nothing.
    pub fn may(action: Action) -> (r: Instruction)
        ensures
            r@ == may(action@),
    {
        Instruction { action, on_failure: Failure::Ignored }
    }
}

/// Where a script goes once the outcome of an instruction is known.
pub ghost enum Verdict {
    /// To the instruction at this index, or to the end beyond the last one.
    Goto(nat),
    /// To the end.
    Finish,
    /// Nowhere: the task stops.
    Stop(ErrorView),
}

/// The verdict on the instruction at index `at` once it was carried out,
/// with or without success: success leads to the next instruction; failure
/// is handled as the instruction asks.
pub open spec fn verdict(instruction: InstructionView, at: nat, success: bool) -> Verdict {
    if success {
        Verdict::Goto(at + 1)
    } else {
        match instruction.on_failure {
            FailureView::Fatal => Verdict::Stop(ErrorView::Failed(instruction.action)),
            FailureView::Missing(name) => Verdict::Stop(ErrorView::MissingInterface(name)),
            FailureView::Ignored => Verdict::Goto(at + 1),
            FailureView::Skip(n) => Verdict::Goto(at + 1 + n),
            FailureView::Finish => Verdict::Finish,
        }
    }
}

/// The verdict on the instruction at index `at`, given its outcome: an
/// action that was not carried out stops the task whatever the instruction
/// says.
pub open spec fn judge(instruction: InstructionView, at: nat, outcome: Outcome) -> Verdict {
    match outcome {
        Outcome::Unperformed => Verdict::Stop(ErrorView::Unperformed(instruction.action)),
        Outcome::Finished { success, .. } => verdict(instruction, at, success),
    }
}

/// A list of instructions and the place in it that the caller has reached.
pub struct Script {
    steps: Vec<Instruction>,
    cursor: usize,
}

/// What a `Script` stands for in contracts, with its texts and lists as
/// sequences.
pub ghost struct ScriptView {
    /// The instructions, in the order in which they are carried out.
    pub steps: Seq<InstructionView>,
    /// The index of the instruction whose outcome is awaited; the length of
    /// `steps`, or more, once the script has ended.
    pub cursor: nat,
}

impl ScriptView {
    /// The script with its cursor at `cursor`, and what the caller is
    /// handed there.
    pub open spec fn issue(self, cursor: nat) -> (ScriptView, StepView) {
        if cursor < self.steps.len() {
            (
                ScriptView { steps: self.steps, cursor },
                StepView::Perform(self.steps[cursor as int].action),
            )
        } else {
            (ScriptView { steps: self.steps, cursor: self.steps.len() }, StepView::Complete)
        }
    }

    /// The script at its first instruction.
    pub open spec fn start(self) -> (ScriptView, StepView) {
        self.issue(0)
    }

    /// The script after the outcome of the awaited instruction.
    pub open spec fn advance(self, outcome: Outcome) -> (ScriptView, StepView) {
        if self.cursor < self.steps.len() {
            match judge(self.steps[self.cursor as int], self.cursor, outcome) {
                Verdict::Goto(next) => self.issue(next),
                Verdict::Finish => self.issue(self.steps.len()),
                Verdict::Stop(error) => (
                    ScriptView { steps: self.steps, cursor: self.steps.len() },
                    StepView::Abort(error),
                ),
            }
        } else {
            (self, StepView::Complete)
        }
    }

    /// Whether the script has ended.
    pub open spec fn ended(self) -> bool {
        self.cursor >= self.steps.len()
    }

    /// The script after `start` and one `advance` for each of `outcomes`,
    /// with the steps that were handed out on the way.
    pub open spec fn run(self, outcomes: Seq<Outcome>) -> (ScriptView, Seq<StepView>)
        decreases outcomes.len(),
    {
        if outcomes.len() == 0 {
            let (next, step) = self.start();
            (next, seq![step])
        } else {
            let (before, steps) = self.run(outcomes.drop_last());
            let (next, step) = before.advance(outcomes.last());
            (next, steps.push(step))
        }
    }
}

/// A script goes through instructions that stop nothing.
///
/// Of a script whose first `outcomes.len()` instructions ignore failure,
/// and of outcomes that were all carried out: the script has handed out
/// those instructions and the one after them, in their order, and stands
/// at that one.
pub proof fn lemma_lenient_run(script: ScriptView, outcomes: Seq<Outcome>)
    requires
        outcomes.len() < script.steps.len(),
        forall|i: int|
            0 <= i < outcomes.len() ==> (#[trigger] script.steps[i]).on_failure is Ignored,
        forall|i: int| 0 <= i < outcomes.len() ==> #[trigger] outcomes[i] is Finished,
    ensures
        ({
            let (end, steps) = script.run(outcomes);
            &&& end == (ScriptView { steps: script.steps, cursor: outcomes.len() })
            &&& steps.len() == outcomes.len() + 1
            &&& forall|i: int|
                0 <= i < steps.len() ==> #[trigger] steps[i] == StepView::Perform(
                    script.steps[i].action,
                )
        }),
    decreases outcomes.len(),
{
    if outcomes.len() > 0 {
        let earlier = outcomes.drop_last();
        lemma_lenient_run(script, earlier);
        assert(outcomes.last() == outcomes[outcomes.len() - 1]);
    }
}

impl View for Script {
    type V = ScriptView;

    closed spec fn view(&self) -> ScriptView {
        ScriptView { steps: instructions(self.steps@), cursor: self.cursor as nat }
    }
}

impl Script {
    /// A script of these instructions, not yet started.
    pub fn new(steps: Vec<Instruction>) -> (r: Script)
        ensures
            r@ == (ScriptView { steps: instructions(steps@), cursor: 0 }),
    {
        Script { steps, cursor: 0 }
    }

    /// The number of instructions.
    pub fn len(&self) -> (n: usize)
        ensures
            n == self@.steps.len(),
    {
        self.steps.len()
    }

    /// The instruction at `index`.
    pub fn instruction(&self, index: usize) -> (r: &Instruction)
        requires
            index < self@.steps.len(),
        ensures
            r@ == self@.steps[index as int],
    {
        &self.steps[index]
    }

    /// The index of the instruction whose outcome is awaited.
    pub fn cursor(&self) -> (n: usize)
        ensures
            n == self@.cursor,
    {
        self.cursor
    }

    /// Whether the script has ended.
    pub fn ended(&self) -> (r: bool)
        ensures
            r == self@.ended(),
    {
        self.cursor >= self.steps.len()
    }

    fn issue(&mut self, cursor: usize) -> (step: Step)
        ensures
            (final(self)@, step@) == old(self)@.issue(cursor as nat),
    {
        if cursor < self.steps.len() {
            self.cursor = cursor;
            Step::Perform(self.steps[cursor].action.duplicate())
        } else {
            self.cursor = self.steps.len();
            Step::Complete
        }
    }

    /// Starts the script: hands out its first action, or ends at once when
    /// there is none.
    pub fn start(&mut self) -> (step: Step)
        ensures
            (final(self)@, step@) == old(self)@.start(),
    {
        self.issue(0)
    }

    /// Takes the outcome of the awaited action and hands out what follows.
    /// After the end it hands out `Complete` and changes nothing; a script
    /// that was never started takes the outcome as that of its first
    /// instruction.
    pub fn advance(&mut self, outcome: &Outcome) -> (step: Step)
        ensures
            (final(self)@, step@) == old(self)@.advance(*outcome),
    {
        if self.cursor >= self.steps.len() {
            return Step::Complete;
        }
        let at = self.cursor;
        let action = self.steps[at].action.duplicate();
        match outcome {
            Outcome::Unperformed => {
                self.cursor = self.steps.len();
                Step::Abort(Error::Unperformed(action))
            },
            Outcome::Finished { success, .. } => {
                if *success {
                    self.issue(at + 1)
                } else {
                    match &self.steps[at].on_failure {
                        Failure::Fatal => {
                            self.cursor = self.steps.len();
                            Step::Abort(Error::Failed(action))
                        },
                        Failure::Missing(name) => {
                            let error = Error::MissingInterface(name.clone());
                            self.cursor = self.steps.len();
                            Step::Abort(error)
                        },
                        Failure::Ignored => self.issue(at + 1),
                        Failure::Skip(n) => {
                            let n = *n;
                            if n < usize::MAX - at {
                                self.issue(at + 1 + n)
                            } else {
                                self.issue(usize::MAX)
                            }
                        },
                        Failure::Finish => self.issue(usize::MAX),
                    }
                }
            },
        }
    }
}

} // verus!
