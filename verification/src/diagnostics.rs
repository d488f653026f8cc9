//! Rendering an error together with the chain of errors that caused it.

use vstd::prelude::*;

use crate::keyed::string_views;

verus! {

/// `parts` with `sep` between each two neighbours.
pub open spec fn joined(parts: Seq<Seq<char>>, sep: Seq<char>) -> Seq<char>
    decreases parts.len(),
{
    if parts.len() == 0 {
        Seq::empty()
    } else if parts.len() == 1 {
        parts[0]
    } else {
        joined(parts.drop_last(), sep) + sep + parts.last()
    }
}

/// Renders an error and its sources on one line, e.g.
/// "server error: io error: Address already in use (os error 48)".
/// `chain` holds the error's own message, then that of each source in turn.
pub fn describe_error(chain: &Vec<String>) -> (msg: String)
    ensures
        msg@ == joined(string_views(chain@), ": "@),
{
    let mut msg = String::new();
    let mut i: usize = 0;
    while i < chain.len()
        invariant
            i <= chain.len(),
            msg@ == joined(string_views(chain@).take(i as int), ": "@),
        decreases chain.len() - i,
    {
        proof {
            assert(string_views(chain@).take(i + 1).drop_last() =~= string_views(chain@).take(
                i as int,
            ));
        }
        if i == 0 {
            msg = chain[0].clone();
            assert(string_views(chain@).take(1) =~= seq![chain@[0]@]);
        } else {
            msg.append(": ");
            msg.append(chain[i].as_str());
        }
        i = i + 1;
    }
    assert(string_views(chain@).take(chain.len() as int) =~= string_views(chain@));
    msg
}

} // verus!
