//! Argument lists of external programs.

use vstd::prelude::*;
use vstd::string::*;

verus! {

/// The arguments as texts.
pub open spec fn words(args: Seq<String>) -> Seq<Seq<char>> {
    args.map_values(|arg: String| arg@)
}

/// Appends one argument.
pub(crate) fn add_word(args: &mut Vec<String>, word: &str)
    ensures
        words(final(args)@) == words(old(args)@).push(word@),
{
    let ghost before = words(args@);
    args.push(word.to_owned());
    assert(words(args@) =~= before.push(word@));
}

/// The texts of a list of string slices.
pub open spec fn slices(list: Seq<&str>) -> Seq<Seq<char>> {
    list.map_values(|s: &str| s@)
}

/// Appends several arguments.
pub(crate) fn add_words(args: &mut Vec<String>, list: &[&str])
    ensures
        words(final(args)@) == words(old(args)@) + slices(list@),
{
    let ghost before = words(args@);
    let n: usize = list.len();
    for i in 0..n
        invariant
            n == list@.len(),
            words(args@) =~= before + slices(list@.take(i as int)),
    {
        add_word(args, list[i]);
        assert(slices(list@.take(i + 1)) =~= slices(list@.take(i as int)).push(list@[i as int]@));
    }
    assert(list@.take(n as int) =~= list@);
}

/// The texts of arguments are those of each argument, in order.
pub proof fn law_words_are_the_arguments(args: Seq<String>, i: int)
    requires
        0 <= i < args.len(),
    ensures
        words(args).len() == args.len(),
        words(args)[i] == args[i]@,
{
}

/// The texts of string slices are those of each slice, in order.
pub proof fn law_slices_are_the_texts(list: Seq<&str>, i: int)
    requires
        0 <= i < list.len(),
    ensures
        slices(list).len() == list.len(),
        slices(list)[i] == list[i]@,
{
}

} // verus!
