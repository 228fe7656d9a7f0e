//! The arguments of the program.

use vstd::prelude::*;

verus! {

/// What is said where there are too many arguments.
pub open spec fn usage() -> Seq<char> {
    "usage: purgee [PATH]"@
}

/// The root that the arguments name, where they name one.
pub open spec fn named_root<T>(arguments: Seq<T>, current: T) -> Option<T> {
    if arguments.len() == 0 {
        Some(current)
    } else if arguments.len() == 1 {
        Some(arguments[0])
    } else {
        None
    }
}

/// Without an argument the root is where the program was started; a single argument names it; with
/// a further one, whatever it is, the arguments name none.
pub proof fn one_argument_names_the_root<T>(
    argument: T,
    second: T,
    further: Seq<T>,
    current: T,
)
    ensures
        named_root(Seq::empty(), current) == Some(current),
        named_root(seq![argument], current) == Some(argument),
        named_root(seq![argument, second] + further, current) is None,
{
}

/// The root that the arguments name: the only argument, or `current` where there is none. More
/// than one argument is refused.
pub fn parse_root_argument<T>(arguments: Vec<T>, current: T) -> (result: Result<T, &'static str>)
    ensures
        match result {
            Ok(root) => arguments@.len() <= 1 && root == if arguments@.len() == 1 {
                arguments@[0]
            } else {
                current
            },
            Err(reason) => arguments@.len() > 1 && reason@ == usage(),
        },
        match result {
            Ok(root) => named_root(arguments@, current) == Some(root),
            Err(reason) => named_root(arguments@, current) is None,
        },
{
    let mut rest = arguments;
    if rest.len() > 1 {
        return Err("usage: purgee [PATH]");
    }
    match rest.pop() {
        Some(root) => Ok(root),
        None => Ok(current),
    }
}

} // verus!
