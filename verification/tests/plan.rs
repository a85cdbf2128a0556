use netd::plan::{copy_bytes, push_instruction, Action, Command, Error, Failure, Instruction, Outcome, Script, Step};

fn run(program: &str) -> Action {
    Action::Run(Command { program: program.to_string(), args: vec![] })
}

fn ok() -> Outcome {
    Outcome::Finished { success: true, output: String::new() }
}

fn failed() -> Outcome {
    Outcome::Finished { success: false, output: String::new() }
}

fn script(policies: Vec<Failure>) -> Script {
    let mut steps = Vec::new();
    for (i, on_failure) in policies.into_iter().enumerate() {
        steps.push(Instruction { action: run(&format!("p{}", i)), on_failure });
    }
    Script::new(steps)
}

#[test]
fn empty_script_is_complete_at_once() {
    let mut s = Script::new(vec![]);
    assert_eq!(s.len(), 0);
    assert_eq!(s.start(), Step::Complete);
    assert!(s.ended());
    assert_eq!(s.advance(&ok()), Step::Complete);
}

#[test]
fn script_walks_its_instructions_in_order() {
    let mut s = script(vec![Failure::Fatal, Failure::Ignored, Failure::Fatal]);
    assert_eq!(s.len(), 3);
    assert_eq!(s.start(), Step::Perform(run("p0")));
    assert_eq!(s.cursor(), 0);
    assert_eq!(s.advance(&ok()), Step::Perform(run("p1")));
    assert_eq!(s.cursor(), 1);
    assert_eq!(s.advance(&ok()), Step::Perform(run("p2")));
    assert!(!s.ended());
    assert_eq!(s.advance(&ok()), Step::Complete);
    assert!(s.ended());
    assert_eq!(s.advance(&ok()), Step::Complete);
}

#[test]
fn fatal_failure_stops_the_script() {
    let mut s = script(vec![Failure::Fatal, Failure::Fatal]);
    s.start();
    assert_eq!(s.advance(&failed()), Step::Abort(Error::Failed(run("p0"))));
    assert!(s.ended());
    assert_eq!(s.advance(&ok()), Step::Complete);
}

#[test]
fn missing_interface_is_named() {
    let mut s = Script::new(vec![Instruction::needs(run("look"), "eth7")]);
    s.start();
    assert_eq!(s.advance(&failed()), Step::Abort(Error::MissingInterface("eth7".to_string())));
}

#[test]
fn ignored_failure_goes_on() {
    let mut s = script(vec![Failure::Ignored, Failure::Fatal]);
    s.start();
    assert_eq!(s.advance(&failed()), Step::Perform(run("p1")));
}

#[test]
fn skip_leaves_out_what_follows() {
    let mut s = script(vec![Failure::Skip(2), Failure::Fatal, Failure::Fatal, Failure::Fatal]);
    s.start();
    assert_eq!(s.advance(&failed()), Step::Perform(run("p3")));
    let mut t = script(vec![Failure::Skip(2), Failure::Fatal, Failure::Fatal, Failure::Fatal]);
    t.start();
    assert_eq!(t.advance(&ok()), Step::Perform(run("p1")));
}

#[test]
fn skip_beyond_the_end_completes() {
    let mut s = script(vec![Failure::Skip(7), Failure::Fatal]);
    s.start();
    assert_eq!(s.advance(&failed()), Step::Complete);
    let mut t = script(vec![Failure::Skip(usize::MAX), Failure::Fatal]);
    t.start();
    assert_eq!(t.advance(&failed()), Step::Complete);
}

#[test]
fn finish_ends_the_script_without_error() {
    let mut s = script(vec![Failure::Finish, Failure::Fatal, Failure::Fatal]);
    s.start();
    assert_eq!(s.advance(&failed()), Step::Complete);
    assert!(s.ended());
}

#[test]
fn unperformed_action_stops_whatever_the_policy() {
    for policy in [Failure::Fatal, Failure::Ignored, Failure::Skip(1), Failure::Finish, Failure::Missing("x".to_string())] {
        let mut s = script(vec![policy, Failure::Fatal]);
        s.start();
        assert_eq!(s.advance(&Outcome::Unperformed), Step::Abort(Error::Unperformed(run("p0"))));
        assert!(s.ended());
    }
}

#[test]
fn instruction_builders() {
    assert_eq!(Instruction::must(run("a")), Instruction { action: run("a"), on_failure: Failure::Fatal });
    assert_eq!(Instruction::may(run("a")), Instruction { action: run("a"), on_failure: Failure::Ignored });
    assert_eq!(Instruction::guards(run("a"), 2), Instruction { action: run("a"), on_failure: Failure::Skip(2) });
    assert_eq!(Instruction::closes(run("a")), Instruction { action: run("a"), on_failure: Failure::Finish });
    assert_eq!(
        Instruction::needs(run("a"), "eth0"),
        Instruction { action: run("a"), on_failure: Failure::Missing("eth0".to_string()) }
    );
}

#[test]
fn instructions_are_read_back() {
    let s = script(vec![Failure::Fatal, Failure::Ignored]);
    assert_eq!(s.instruction(1), &Instruction { action: run("p1"), on_failure: Failure::Ignored });
    let mut v = vec![];
    push_instruction(&mut v, Instruction::must(run("a")));
    push_instruction(&mut v, Instruction::may(run("b")));
    assert_eq!(v, vec![Instruction::must(run("a")), Instruction::may(run("b"))]);
}

#[test]
fn copies_are_equal() {
    let actions = vec![
        run("ip"),
        Action::Hook("/x".to_string()),
        Action::Sleep(2),
        Action::Ping { address: "10.0.0.1".to_string(), payload: vec![0; 8] },
        Action::Transmit { link: "eth0".to_string(), frame: vec![1, 2, 3] },
        Action::Serve {
            directory: "/d".to_string(),
            path: "/d/f".to_string(),
            contents: "c".to_string(),
            server: Command { program: "udhcpd".to_string(), args: vec!["/d/f".to_string()] },
        },
    ];
    for action in &actions {
        assert_eq!(&action.duplicate(), action);
        let failed = Error::Failed(action.duplicate());
        assert_eq!(failed.duplicate(), failed);
    }
    for error in [
        Error::MissingInterface("a".to_string()),
        Error::StaticNeedsAddress("b".to_string()),
        Error::NoGateway("c".to_string()),
        Error::NoHardwareAddress("d".to_string()),
        Error::NoDescription("e".to_string()),
        Error::Unperformed(run("x")),
    ] {
        assert_eq!(error.duplicate(), error);
    }
    assert_eq!(copy_bytes(&vec![1, 2, 3]), vec![1, 2, 3]);
    let c = Command { program: "ip".to_string(), args: vec!["a".to_string()] };
    assert_eq!(c.duplicate(), c);
}
