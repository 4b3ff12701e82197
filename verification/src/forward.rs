//! The decision whether an invocation forwards its arguments to the running
//! instance or runs by itself.

use vstd::prelude::*;
use vstd::string::*;

verus! {

/// What an invocation is to do with its arguments.
#[derive(Clone, Debug, PartialEq, Eq)]
pub enum Decision {
    /// Send this text to the running instance.
    Forward(String),
    /// Run locally, with these arguments.
    RunLocally(Vec<String>),
}

/// The texts of a list of strings.
pub open spec fn texts(items: Seq<String>) -> Seq<Seq<char>> {
    Seq::new(items.len(), |i: int| items[i]@)
}

/// The items joined by single spaces.
pub open spec fn joined(items: Seq<Seq<char>>) -> Seq<char>
    decreases items.len(),
{
    if items.len() == 0 {
        Seq::<char>::empty()
    } else if items.len() == 1 {
        items[0]
    } else {
        joined(items.drop_last()) + seq![' '] + items.last()
    }
}

/// Whether the subcommand, the argument after the program's name, is one of
/// `commands`.
pub open spec fn intercepted(args: Seq<Seq<char>>, commands: Seq<Seq<char>>) -> bool {
    args.len() >= 2 && commands.contains(args[1])
}

/// Whether `word` is one of `commands`.
pub fn is_listed(commands: &Vec<String>, word: &String) -> (found: bool)
    ensures
        found == texts(commands@).contains(word@),
{
    let mut i: usize = 0;
    while i < commands.len()
        invariant
            i <= commands.len(),
            forall|j: int| 0 <= j < i ==> texts(commands@)[j] != word@,
        decreases commands.len() - i,
    {
        if commands[i] == *word {
            assert(texts(commands@)[i as int] == word@);
            return true;
        }
        i += 1;
    }
    false
}

/// The arguments joined by single spaces.
pub fn join_args(args: &Vec<String>) -> (line: String)
    ensures
        line@ == joined(texts(args@)),
{
    let mut line = String::new();
    let mut i: usize = 0;
    while i < args.len()
        invariant
            i <= args.len(),
            line@ == joined(texts(args@).subrange(0, i as int)),
        decreases args.len() - i,
    {
        let ghost before = texts(args@).subrange(0, i as int);
        let ghost after = texts(args@).subrange(0, i + 1);
        proof {
            reveal_strlit(" ");
            assert(after.drop_last() =~= before);
            assert(after.last() == args@[i as int]@);
            assert(" "@ =~= seq![' ']);
        }
        if i > 0 {
            line.append(" ");
        }
        line.append(args[i].as_str());
        proof {
            if i == 0 {
                assert(before.len() == 0);
                assert(line@ =~= after[0]);
            }
        }
        i += 1;
    }
    assert(texts(args@).subrange(0, args@.len() as int) =~= texts(args@));
    line
}

/// Decides what to do with `args`, the program's name first: forward them,
/// joined by single spaces, where the subcommand is one of `commands`, and
/// run locally with the arguments as they are where it is not.
pub fn decide(args: Vec<String>, commands: &Vec<String>) -> (decision: Decision)
    ensures
        intercepted(texts(args@), texts(commands@)) ==> decision is Forward
            && decision->Forward_0@ == joined(texts(args@)),
        !intercepted(texts(args@), texts(commands@)) ==> decision == Decision::RunLocally(args),
{
    if args.len() >= 2 && is_listed(commands, &args[1]) {
        Decision::Forward(join_args(&args))
    } else {
        Decision::RunLocally(args)
    }
}

} // verus!
