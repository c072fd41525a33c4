//! The side of a service that connects to the orchestrator.
use vstd::prelude::*;

use crate::text::{concat2, concat3, decimal, usize_to_text};

pub mod config;
pub mod signaling;

verus! {

/// `n` right-aligned in three columns, as `{:>3}` writes it.
pub open spec fn right_aligned3(n: nat) -> Seq<char> {
    let d = decimal(n);
    if d.len() >= 3 {
        d
    } else {
        Seq::new((3 - d.len()) as nat, |i: int| ' ') + d
    }
}

/// The causes of an error, after the error itself (the first of the chain),
/// numbered from 0.
pub open spec fn causes_text(chain: Seq<Seq<char>>) -> Seq<char>
    decreases chain.len(),
{
    if chain.len() <= 1 {
        "Caused by:"@
    } else {
        causes_text(chain.drop_last()) + "\n"@ + right_aligned3((chain.len() - 2) as nat) + ": "@ + chain.last()
    }
}

/// The text that lists the causes of an error, given the messages of its
/// chain, the error's own first.
pub fn error_causes_text(chain: &Vec<String>) -> (s: String)
    ensures
        s@ == causes_text(chain@.map_values(|m: String| m@)),
{
    let ghost all = chain@.map_values(|m: String| m@);
    let mut out = "Caused by:".to_owned();
    if chain.len() <= 1 {
        return out;
    }
    let mut i: usize = 1;
    while i < chain.len()
        invariant
            1 <= i <= chain@.len(),
            all == chain@.map_values(|m: String| m@),
            out@ == causes_text(all.subrange(0, i as int)),
        decreases chain.len() - i,
    {
        let ghost prefix = all.subrange(0, i as int + 1);
        proof {
            assert(prefix.drop_last() =~= all.subrange(0, i as int));
            assert(prefix.last() == chain@[i as int]@);
        }
        let number = usize_to_text(i - 1);
        let padded = if number.as_str().unicode_len() >= 3 {
            number
        } else if number.as_str().unicode_len() == 2 {
            concat2(" ", number.as_str())
        } else {
            concat2("  ", number.as_str())
        };
        proof {
            reveal_strlit(" ");
            reveal_strlit("  ");
            crate::text::lemma_decimal_digits((i - 1) as nat);
            let d = decimal((i - 1) as nat);
            if d.len() == 2 {
                assert(padded@ =~= Seq::new(1, |k: int| ' ') + d);
            } else if d.len() == 1 {
                assert(padded@ =~= Seq::new(2, |k: int| ' ') + d);
            }
        }
        let line = concat3("\n", padded.as_str(), ": ");
        out = concat3(out.as_str(), line.as_str(), chain[i].as_str());
        i = i + 1;
    }
    assert(all.subrange(0, all.len() as int) =~= all);
    out
}

} // verus!
