//! Renames: the instructions that give interfaces their new names and
//! take them back, and what they do to the names on a host.
use crate::link::interface::{rename_command, show_command};
use crate::plan::{
    guards, must, needs, verdict, ActionView, CommandView, FailureView, InstructionView, Verdict,
};
use vstd::prelude::*;

verus! {

/// The instructions that give each interface the name it is to have, in
/// the order of the pairs: the interface must be there under the name that
/// the operating system gave it, and the rename must succeed.
pub open spec fn rename_steps(pairs: Seq<(Seq<char>, Seq<char>)>) -> Seq<InstructionView>
    decreases pairs.len(),
{
    if pairs.len() == 0 {
        Seq::empty()
    } else {
        let (from, to) = pairs.last();
        rename_steps(pairs.drop_last()) + seq![
            needs(ActionView::Run(show_command(from)), from),
            must(ActionView::Run(rename_command(from, to))),
        ]
    }
}

/// The instructions that give each interface its former name back, the
/// last pair first. An interface that is no longer there under its new
/// name is left out.
pub open spec fn undo_steps(pairs: Seq<(Seq<char>, Seq<char>)>) -> Seq<InstructionView>
    decreases pairs.len(),
{
    if pairs.len() == 0 {
        Seq::empty()
    } else {
        let (from, to) = pairs.last();
        seq![
            guards(ActionView::Run(show_command(to)), 1),
            must(ActionView::Run(rename_command(to, from))),
        ] + undo_steps(pairs.drop_last())
    }
}

/// Whether `command` lists a link.
pub open spec fn is_listing(command: CommandView) -> bool {
    command.program == "ip"@ && command.args.len() == 3 && command.args[0] == "link"@
        && command.args[1] == "show"@
}

/// Whether `command` gives a link another name.
pub open spec fn is_rename(command: CommandView) -> bool {
    command.program == "ip"@ && command.args.len() == 5 && command.args[0] == "link"@
        && command.args[1] == "set"@ && command.args[3] == "name"@
}

/// What a host on which the interfaces go by `names` does on `action`:
/// the names afterwards, and whether the action succeeded. The listing of a
/// link succeeds if and only if a link of that name is there. A rename
/// succeeds if and only if the link is there and no link has the new name,
/// and then the link goes by the new name. Every other action succeeds and
/// changes no name.
pub open spec fn host_answer(names: Seq<Seq<char>>, action: ActionView) -> (Seq<Seq<char>>, bool) {
    match action {
        ActionView::Run(command) => if is_listing(command) {
            (names, names.contains(command.args[2]))
        } else if is_rename(command) {
            let from = command.args[2];
            let to = command.args[4];
            if names.contains(from) && !names.contains(to) {
                (renamed(names, from, to), true)
            } else {
                (names, false)
            }
        } else {
            (names, true)
        },
        _ => (names, true),
    }
}

/// The names on the host after the instructions of `steps` from index `at`
/// on were carried out on it, each followed by what a script does on its
/// outcome. `None` where the script stops on a fatal condition.
pub open spec fn walk(steps: Seq<InstructionView>, at: nat, names: Seq<Seq<char>>) -> Option<
    Seq<Seq<char>>,
>
    decreases steps.len() - at,
{
    if at >= steps.len() {
        Some(names)
    } else {
        let (after, success) = host_answer(names, steps[at as int].action);
        if success {
            walk(steps, at + 1, after)
        } else {
            match steps[at as int].on_failure {
                FailureView::Ignored => walk(steps, at + 1, after),
                FailureView::Skip(n) => if at + 1 + n < steps.len() {
                    walk(steps, at + 1 + n, after)
                } else {
                    Some(after)
                },
                FailureView::Finish => Some(after),
                _ => None,
            }
        }
    }
}

/// A walk goes where the verdict of a script sends it.
pub proof fn lemma_walk_follows_verdict(
    steps: Seq<InstructionView>,
    at: nat,
    names: Seq<Seq<char>>,
)
    requires
        at < steps.len(),
    ensures
        ({
            let (after, success) = host_answer(names, steps[at as int].action);
            walk(steps, at, names) == match verdict(steps[at as int], at, success) {
                Verdict::Goto(next) => walk(steps, next, after),
                Verdict::Finish => Some(after),
                Verdict::Stop(_) => None,
            }
        }),
{
}

/// The names of the interfaces of a host after the interface `from` was
/// given the name `to`. The interface at an index stays at that index.
pub open spec fn renamed(names: Seq<Seq<char>>, from: Seq<char>, to: Seq<char>) -> Seq<Seq<char>> {
    Seq::new(
        names.len(),
        |i: int|
            if names[i] == from {
                to
            } else {
                names[i]
            },
    )
}

/// The names after the renames of a configuration pass, on a host that
/// gives no interface a name that another one has: the pairs are taken in
/// their order, the interface must be there under its first name, and the
/// second must be free. `None` where the pass stops.
pub open spec fn names_after_renames(names: Seq<Seq<char>>, pairs: Seq<(Seq<char>, Seq<char>)>)
    -> Option<Seq<Seq<char>>>
    decreases pairs.len(),
{
    if pairs.len() == 0 {
        Some(names)
    } else {
        let (from, to) = pairs.last();
        match names_after_renames(names, pairs.drop_last()) {
            Some(now) => if now.contains(from) && !now.contains(to) {
                Some(renamed(now, from, to))
            } else {
                None
            },
            None => None,
        }
    }
}

/// The names after the renames were taken back by a teardown pass, on the
/// same host: the pairs are taken last first, an interface that is not
/// there under its second name is left out, and the first name must be
/// free. `None` where the pass stops.
pub open spec fn names_after_undo(names: Seq<Seq<char>>, pairs: Seq<(Seq<char>, Seq<char>)>)
    -> Option<Seq<Seq<char>>>
    decreases pairs.len(),
{
    if pairs.len() == 0 {
        Some(names)
    } else {
        let (from, to) = pairs.last();
        if !names.contains(to) {
            names_after_undo(names, pairs.drop_last())
        } else if names.contains(from) {
            None
        } else {
            names_after_undo(renamed(names, to, from), pairs.drop_last())
        }
    }
}

/// Renames come back.
///
/// Of any names and any renames: if the configuration pass got through its
/// renames, then the teardown pass gets through taking them back, and every
/// interface has the name again that it had before.
pub proof fn lemma_rename_round_trip(names: Seq<Seq<char>>, pairs: Seq<(Seq<char>, Seq<char>)>)
    requires
        names_after_renames(names, pairs).is_some(),
    ensures
        names_after_undo(names_after_renames(names, pairs).unwrap(), pairs) == Some(names),
    decreases pairs.len(),
{
    if pairs.len() > 0 {
        let (from, to) = pairs.last();
        let now = names_after_renames(names, pairs.drop_last()).unwrap();
        let then = renamed(now, from, to);
        let k = choose|k: int| 0 <= k < now.len() && now[k] == from;
        assert(then[k] == to);
        assert(!then.contains(from)) by {
            if then.contains(from) {
                let i = choose|i: int| 0 <= i < then.len() && then[i] == from;
                assert(now[i] == from || now[i] == then[i]);
            }
        }
        assert(renamed(then, to, from) =~= now) by {
            assert forall|i: int| 0 <= i < now.len() implies renamed(then, to, from)[i]
                == now[i] by {
                assert(now.contains(now[i]));
            }
        }
        lemma_rename_round_trip(names, pairs.drop_last());
    }
}

/// The renames of the two passes, pair by pair.
///
/// The configuration pass takes the pairs in their order, two instructions
/// for each: the interface must be there under its first name, and is
/// given the second. The teardown pass takes them last first, two
/// instructions for each: if the interface is there under its second name,
/// it is given the first.
pub proof fn lemma_rename_scripts(pairs: Seq<(Seq<char>, Seq<char>)>, i: int)
    requires
        0 <= i < pairs.len(),
    ensures
        rename_steps(pairs).len() == 2 * pairs.len(),
        undo_steps(pairs).len() == 2 * pairs.len(),
        rename_steps(pairs)[2 * i] == needs(ActionView::Run(show_command(pairs[i].0)), pairs[i].0),
        rename_steps(pairs)[2 * i + 1] == must(
            ActionView::Run(rename_command(pairs[i].0, pairs[i].1)),
        ),
        undo_steps(pairs)[2 * (pairs.len() - 1 - i)] == guards(
            ActionView::Run(show_command(pairs[i].1)),
            1,
        ),
        undo_steps(pairs)[2 * (pairs.len() - 1 - i) + 1] == must(
            ActionView::Run(rename_command(pairs[i].1, pairs[i].0)),
        ),
    decreases pairs.len(),
{
    lemma_rename_lengths(pairs);
    lemma_rename_lengths(pairs.drop_last());
    if i < pairs.len() - 1 {
        lemma_rename_scripts(pairs.drop_last(), i);
    }
}

proof fn lemma_rename_lengths(pairs: Seq<(Seq<char>, Seq<char>)>)
    ensures
        rename_steps(pairs).len() == 2 * pairs.len(),
        undo_steps(pairs).len() == 2 * pairs.len(),
    decreases pairs.len(),
{
    if pairs.len() > 0 {
        lemma_rename_lengths(pairs.drop_last());
    }
}


/// Whether no instruction of `steps` leaves others out.
spec fn plain(steps: Seq<InstructionView>) -> bool {
    forall|i: int|
        0 <= i < steps.len() ==> !((#[trigger] steps[i]).on_failure is Skip) && !(
        steps[i].on_failure is Finish)
}

proof fn lemma_rename_steps_plain(pairs: Seq<(Seq<char>, Seq<char>)>)
    ensures
        plain(rename_steps(pairs)),
    decreases pairs.len(),
{
    if pairs.len() > 0 {
        lemma_rename_steps_plain(pairs.drop_last());
    }
}

/// A walk through `first + second` goes through `first` as if it stood
/// alone, and then on from where `second` begins.
proof fn lemma_walk_append(
    first: Seq<InstructionView>,
    second: Seq<InstructionView>,
    at: nat,
    names: Seq<Seq<char>>,
)
    requires
        plain(first),
        at <= first.len(),
    ensures
        walk(first + second, at, names) == match walk(first, at, names) {
            Some(after) => walk(first + second, first.len(), after),
            None => None,
        },
    decreases first.len() - at,
{
    if at < first.len() {
        let all = first + second;
        assert(all[at as int] == first[at as int]);
        let (after, success) = host_answer(names, first[at as int].action);
        lemma_walk_append(first, second, at + 1, after);
    }
}

/// A walk through the end of `first + second` is a walk through `second`.
proof fn lemma_walk_shift(
    first: Seq<InstructionView>,
    second: Seq<InstructionView>,
    at: nat,
    names: Seq<Seq<char>>,
)
    ensures
        walk(first + second, first.len() + at, names) == walk(second, at, names),
    decreases second.len() - at,
{
    if at < second.len() {
        let all = first + second;
        let here = (first.len() + at) as int;
        assert(all[here] == second[at as int]);
        let (after, success) = host_answer(names, second[at as int].action);
        lemma_walk_shift(first, second, at + 1, after);
        match second[at as int].on_failure {
            FailureView::Skip(n) => {
                if at + 1 + n < second.len() {
                    lemma_walk_shift(first, second, at + 1 + n, after);
                }
            },
            _ => {},
        }
    }
}

proof fn lemma_walk_renames(names: Seq<Seq<char>>, pairs: Seq<(Seq<char>, Seq<char>)>)
    ensures
        walk(rename_steps(pairs), 0, names) == names_after_renames(names, pairs),
    decreases pairs.len(),
{
    if pairs.len() > 0 {
        let (from, to) = pairs.last();
        let first = rename_steps(pairs.drop_last());
        let second = seq![
            needs(ActionView::Run(show_command(from)), from),
            must(ActionView::Run(rename_command(from, to))),
        ];
        assert(rename_steps(pairs) == first + second);
        lemma_walk_renames(names, pairs.drop_last());
        lemma_rename_steps_plain(pairs.drop_last());
        lemma_walk_append(first, second, 0, names);
        match walk(first, 0, names) {
            Some(now) => {
                lemma_walk_shift(first, second, 0, now);
                assert(is_listing(show_command(from)));
                assert(show_command(from).args[2] == from);
                assert(!is_listing(rename_command(from, to)));
                assert(is_rename(rename_command(from, to)));
                assert(rename_command(from, to).args[2] == from);
                assert(rename_command(from, to).args[4] == to);
                assert(host_answer(now, second[0].action) == (now, now.contains(from)));
                let then = renamed(now, from, to);
                assert(walk(second, 2, then) == Some(then));
                assert(walk(second, 1, now) == if now.contains(from) && !now.contains(to) {
                    Some(then)
                } else {
                    None
                });
                assert(walk(second, 0, now) == if now.contains(from) {
                    walk(second, 1, now)
                } else {
                    None
                });
            },
            None => {},
        }
    }
}

proof fn lemma_walk_undo(names: Seq<Seq<char>>, pairs: Seq<(Seq<char>, Seq<char>)>)
    ensures
        walk(undo_steps(pairs), 0, names) == names_after_undo(names, pairs),
    decreases pairs.len(),
{
    if pairs.len() > 0 {
        let (from, to) = pairs.last();
        let first = seq![
            guards(ActionView::Run(show_command(to)), 1),
            must(ActionView::Run(rename_command(to, from))),
        ];
        let second = undo_steps(pairs.drop_last());
        let all = first + second;
        assert(undo_steps(pairs) == all);
        assert(is_listing(show_command(to)));
        assert(show_command(to).args[2] == to);
        assert(!is_listing(rename_command(to, from)));
        assert(is_rename(rename_command(to, from)));
        assert(rename_command(to, from).args[2] == to);
        assert(rename_command(to, from).args[4] == from);
        assert(all[0] == first[0]);
        assert(all[1] == first[1]);
        assert(host_answer(names, all[0].action) == (names, names.contains(to)));
        let then = renamed(names, to, from);
        lemma_walk_shift(first, second, 0, names);
        lemma_walk_shift(first, second, 0, then);
        lemma_walk_undo(names, pairs.drop_last());
        lemma_walk_undo(then, pairs.drop_last());
        assert(walk(all, 2, names) == names_after_undo(names, pairs.drop_last()));
        assert(walk(all, 2, then) == names_after_undo(then, pairs.drop_last()));
        assert(walk(all, 1, names) == if names.contains(to) && !names.contains(from) {
            walk(all, 2, then)
        } else {
            None
        });
        if !names.contains(to) {
            if 2 < all.len() {
                assert(walk(all, 0, names) == walk(all, 2, names));
            } else {
                assert(walk(all, 0, names) == Some(names));
                assert(walk(all, 2, names) == Some(names));
            }
        } else {
            assert(walk(all, 0, names) == walk(all, 1, names));
        }
    }
}

/// What the rename instructions do on a host.
///
/// The rename instructions of the configuration pass, carried out on a
/// host, leave the names that the renames of the pairs give, taken in
/// their order; the instructions of the teardown pass leave the names that
/// taking the pairs back gives, last first.
pub proof fn lemma_rename_instructions(names: Seq<Seq<char>>, pairs: Seq<(Seq<char>, Seq<char>)>)
    ensures
        walk(rename_steps(pairs), 0, names) == names_after_renames(names, pairs),
        walk(undo_steps(pairs), 0, names) == names_after_undo(names, pairs),
{
    lemma_walk_renames(names, pairs);
    lemma_walk_undo(names, pairs);
}

/// Renames are restored.
///
/// Of any names on a host and any renames: if the rename instructions of
/// the configuration pass get through on the host, then those of the
/// teardown pass get through on what the first left, and leave every
/// interface with the name that it had before.
pub proof fn lemma_renames_restored(names: Seq<Seq<char>>, pairs: Seq<(Seq<char>, Seq<char>)>)
    requires
        walk(rename_steps(pairs), 0, names).is_some(),
    ensures
        walk(undo_steps(pairs), 0, walk(rename_steps(pairs), 0, names).unwrap()) == Some(names),
{
    lemma_walk_renames(names, pairs);
    lemma_rename_round_trip(names, pairs);
    lemma_walk_undo(names_after_renames(names, pairs).unwrap(), pairs);
}

} // verus!
