//! Where the agent skill is installed.

use vstd::prelude::*;
use crate::text::{chars_of, string_of, subrange_chars};

verus! {

/// The part of `path` after a leading `~`, when the path starts at the home directory:
/// empty for `~` itself, and what follows `~/` otherwise.
pub open spec fn home_relative(path: Seq<char>) -> Option<Seq<char>> {
    if path == seq!['~'] {
        Some(Seq::empty())
    } else if path.len() >= 2 && path[0] == '~' && path[1] == '/' {
        Some(path.skip(2))
    } else {
        None
    }
}

/// The rest of `path` below the home directory, when it starts with `~`.
pub fn tilde_rest(path: &str) -> (r: Option<String>)
    ensures
        match r {
            Some(rest) => home_relative(path@) == Some(rest@),
            None => home_relative(path@) is None,
        },
{
    let cs = chars_of(path);
    if cs.len() == 1 && cs[0] == '~' {
        proof {
            assert(cs@ =~= seq!['~']);
        }
        return Some(String::new());
    }
    if cs.len() >= 2 && cs[0] == '~' && cs[1] == '/' {
        let rest = subrange_chars(&cs, 2, cs.len());
        proof {
            assert(rest@ == cs@.skip(2));
        }
        return Some(string_of(&rest));
    }
    proof {
        if cs@ == seq!['~'] {
            assert(cs@.len() == 1);
        }
    }
    None
}

} // verus!
