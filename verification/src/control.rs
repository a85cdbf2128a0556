//! The control channel: the words that a client sends to the daemon, and
//! what the daemon does on each.
use crate::text::{lemma_trimmed_fixed, same_text, trim, trimmed};
use vstd::prelude::*;
use vstd::string::*;

verus! {

/// What a client may ask of the daemon.
#[derive(Clone, Copy, Debug, PartialEq, Eq)]
pub enum ControlCommand {
    /// Tear the live configuration down.
    Reset,
    /// Tear it down, load the configuration anew, and configure.
    Reload,
}

/// One pass of the daemon over its configuration.
#[derive(Clone, Copy, Debug, PartialEq, Eq)]
pub enum Pass {
    /// The live configuration is torn down.
    Teardown,
    /// The configuration is loaded from its source and replaces the live
    /// one.
    Load,
    /// The live configuration is configured.
    Configure,
}

/// The path of the socket that the daemon listens on.
pub open spec fn socket_path() -> Seq<char> {
    "/tmp/netd.sock"@
}

/// The word that asks for `command`.
pub open spec fn word_of(command: ControlCommand) -> Seq<char> {
    match command {
        ControlCommand::Reset => "reset"@,
        ControlCommand::Reload => "reload"@,
    }
}

/// The command in a message: the message without the white space at its
/// ends is one of the two words, or the message holds no command.
pub open spec fn command_of(message: Seq<char>) -> Option<ControlCommand> {
    if trimmed(message) == "reload"@ {
        Some(ControlCommand::Reload)
    } else if trimmed(message) == "reset"@ {
        Some(ControlCommand::Reset)
    } else {
        None
    }
}

/// The passes that `command` asks for, in their order.
pub open spec fn passes_of(command: Option<ControlCommand>) -> Seq<Pass> {
    match command {
        Some(ControlCommand::Reset) => seq![Pass::Teardown],
        Some(ControlCommand::Reload) => seq![Pass::Teardown, Pass::Load, Pass::Configure],
        None => Seq::empty(),
    }
}

/// The path of the socket that the daemon listens on.
pub fn control_socket() -> (r: &'static str)
    ensures
        r@ == socket_path(),
{
    "/tmp/netd.sock"
}

impl ControlCommand {
    /// The word that a client sends for the command.
    pub fn word(&self) -> (r: &'static str)
        ensures
            r@ == word_of(*self),
    {
        match self {
            ControlCommand::Reset => "reset",
            ControlCommand::Reload => "reload",
        }
    }

    /// The passes that the command asks for, in their order.
    pub fn passes(&self) -> (r: Vec<Pass>)
        ensures
            r@ == passes_of(Some(*self)),
    {
        let mut r: Vec<Pass> = Vec::new();
        r.push(Pass::Teardown);
        match self {
            ControlCommand::Reset => {},
            ControlCommand::Reload => {
                r.push(Pass::Load);
                r.push(Pass::Configure);
            },
        }
        assert(r@ =~= passes_of(Some(*self)));
        r
    }
}

/// Reads the command that a client sent.
pub fn parse_command(message: &str) -> (r: Option<ControlCommand>)
    ensures
        r == command_of(message@),
{
    let word = trim(message);
    if same_text(word.as_str(), "reload") {
        Some(ControlCommand::Reload)
    } else if same_text(word.as_str(), "reset") {
        Some(ControlCommand::Reset)
    } else {
        None
    }
}

/// What the daemon does on the message of one connection: the passes of
/// the command that it holds, and nothing on any other message. The daemon
/// holds its configuration locked from the first pass to the last, so that
/// no two messages are served at once.
pub fn handle_stream(message: &str) -> (r: Vec<Pass>)
    ensures
        r@ == passes_of(command_of(message@)),
{
    match parse_command(message) {
        Some(command) => command.passes(),
        None => {
            let r: Vec<Pass> = Vec::new();
            assert(r@ =~= passes_of(None));
            r
        },
    }
}

/// Each command is read back from its own word.
pub proof fn lemma_word_read_back(command: ControlCommand)
    ensures
        command_of(word_of(command)) == Some(command),
{
    reveal_strlit("reset");
    reveal_strlit("reload");
    lemma_trimmed_fixed("reset"@);
    lemma_trimmed_fixed("reload"@);
    assert("reset"@.len() != "reload"@.len());
}

} // verus!
