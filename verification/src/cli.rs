//! The command line: the arguments of the linter, and those that it runs the
//! compiler with.

use vstd::prelude::*;

use crate::text::{join, same_text, texts};

verus! {

/// The arguments without the name of the subcommand, which cargo passes on as
/// the first one behind the name of the program.
pub open spec fn own_arguments(args: Seq<Seq<char>>) -> Seq<Seq<char>> {
    if args.len() > 1 && args[1] == "cost-lint"@ {
        args.remove(1)
    } else {
        args
    }
}

/// The arguments without the name of the subcommand.
pub fn strip_subcommand(args: Vec<String>) -> (own: Vec<String>)
    ensures
        texts(own@) == own_arguments(texts(args@)),
{
    let mut own = args;
    if own.len() > 1 && same_text(own[1].as_str(), "cost-lint") {
        own.remove(1);
        assert(texts(own@) =~= texts(args@).remove(1));
    }
    own
}

/// The arguments that cargo is run with: `dylint` on the library of lints, with
/// its messages as JSON.
pub open spec fn cargo_arguments() -> Seq<Seq<char>> {
    seq!["dylint"@, "--lib"@, "soroban_cost_lints"@, "--"@, "--message-format=json"@]
}

/// The arguments that cargo is run with.
///
/// The messages are asked for as JSON whatever the format of the output is, so
/// that the filter on files applies to all formats.
pub fn dylint_arguments() -> (args: Vec<&'static str>)
    ensures
        crate::text::str_texts(args@) == cargo_arguments(),
{
    let args = vec!["dylint", "--lib", "soroban_cost_lints", "--", "--message-format=json"];
    assert(crate::text::str_texts(args@) =~= cargo_arguments());
    args
}

/// Flags for the compiler: those that are set already and then `flags`, with a
/// space before each that is not the first.
pub open spec fn all_flags(set: Seq<char>, flags: Seq<Seq<char>>) -> Seq<char>
    decreases flags.len(),
{
    if flags.len() == 0 {
        set
    } else {
        let earlier = all_flags(set, flags.drop_last());
        if earlier.len() == 0 {
            flags.last()
        } else {
            earlier + " "@ + flags.last()
        }
    }
}

/// Flags for the compiler: those that are set already and then `flags`.
pub fn dylint_rustflags(set: &str, flags: &Vec<String>) -> (rustflags: String)
    ensures
        rustflags@ == all_flags(set@, texts(flags@)),
{
    let mut rustflags = set.to_string();
    for i in 0..flags.len()
        invariant
            rustflags@ == all_flags(set@, texts(flags@).take(i as int)),
    {
        proof {
            let seen = texts(flags@).take(i + 1);
            assert(seen.drop_last() =~= texts(flags@).take(i as int));
            assert(seen.last() == flags@[i as int]@);
        }
        if !rustflags.as_str().is_empty() {
            rustflags.append(" ");
        } else {
            assert(rustflags@ + flags@[i as int]@ =~= flags@[i as int]@);
        }
        rustflags.append(flags[i].as_str());
    }
    assert(texts(flags@).take(flags@.len() as int) =~= texts(flags@));
    rustflags
}

/// Where no flags are set, and none of `flags` is empty, the flags are `flags`
/// with a space between each two.
pub proof fn flags_are_joined_by_spaces(flags: Seq<Seq<char>>)
    requires
        forall|i: int| 0 <= i < flags.len() ==> (#[trigger] flags[i]).len() > 0,
    ensures
        all_flags(Seq::empty(), flags) == join(flags, " "@),
        flags.len() > 0 ==> all_flags(Seq::empty(), flags).len() > 0,
    decreases flags.len(),
{
    if flags.len() > 0 {
        let front = flags.drop_last();
        assert forall|i: int| 0 <= i < front.len() implies (#[trigger] front[i]).len() > 0 by {
            assert(front[i] == flags[i]);
        }
        flags_are_joined_by_spaces(front);
        assert(flags[flags.len() - 1].len() > 0);
    }
}

/// Only the first argument behind the name of the program is taken out, and only
/// where it is `cost-lint`; all others stay, in their order.
pub proof fn only_the_subcommand_is_stripped(args: Seq<Seq<char>>, i: int)
    ensures
        args.len() > 1 && args[1] == "cost-lint"@ ==> {
            &&& own_arguments(args).len() == args.len() - 1
            &&& own_arguments(args)[0] == args[0]
            &&& 1 <= i < args.len() - 1 ==> own_arguments(args)[i] == args[i + 1]
        },
        !(args.len() > 1 && args[1] == "cost-lint"@) ==> own_arguments(args) == args,
{
}

/// What cargo is run with, word by word.
pub proof fn cargo_runs_dylint_on_the_lints()
    ensures
        cargo_arguments().len() == 5,
        cargo_arguments()[0] == "dylint"@,
        cargo_arguments()[1] == "--lib"@,
        cargo_arguments()[2] == "soroban_cost_lints"@,
        cargo_arguments()[3] == "--"@,
        cargo_arguments()[4] == "--message-format=json"@,
{
}

/// Flags are added one behind the other: without any, what is set stays; one is
/// set off by a space from what is there, if anything is; and two lists added as
/// one are the second added to the first.
pub proof fn flags_are_added_in_order(
    set: Seq<char>,
    one: Seq<char>,
    left: Seq<Seq<char>>,
    right: Seq<Seq<char>>,
)
    ensures
        all_flags(set, Seq::empty()) == set,
        set.len() == 0 ==> all_flags(set, seq![one]) == one,
        set.len() > 0 ==> all_flags(set, seq![one]) == set + seq![' '] + one,
        all_flags(set, left + right) == all_flags(all_flags(set, left), right),
    decreases right.len(),
{
    reveal_strlit(" ");
    assert(" "@ =~= seq![' ']);
    assert(seq![one].drop_last() =~= Seq::empty());
    assert(all_flags(set, seq![one].drop_last()) == set);
    if right.len() == 0 {
        assert(left + right =~= left);
    } else {
        let both = left + right;
        assert(both.drop_last() =~= left + right.drop_last());
        assert(both.last() == right.last());
        flags_are_added_in_order(set, one, left, right.drop_last());
    }
}

} // verus!
