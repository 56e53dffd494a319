//! Small helpers for texts.

use vstd::prelude::*;
use vstd::string::*;

verus! {

pub open spec fn texts(words: Seq<String>) -> Seq<Seq<char>> {
    words.map_values(|w: String| w@)
}

/// The words with `, ` between them.
pub open spec fn comma_joined(words: Seq<Seq<char>>) -> Seq<char>
    decreases words.len(),
{
    if words.len() == 0 {
        Seq::empty()
    } else if words.len() == 1 {
        words[0]
    } else {
        comma_joined(words.drop_last()) + ", "@ + words.last()
    }
}

/// The words as an English list: `a`, `a and b`, `a, b, and c`.
pub open spec fn listed(words: Seq<Seq<char>>) -> Option<Seq<char>> {
    if words.len() == 0 {
        None
    } else if words.len() == 1 {
        Some(words[0])
    } else if words.len() == 2 {
        Some(words[0] + " and "@ + words[1])
    } else {
        Some(comma_joined(words.drop_last()) + ", and "@ + words.last())
    }
}

/// Joins words to an English list; there is none of no words.
pub fn join(words: &Vec<String>) -> (r: Option<String>)
    ensures
        match r {
            Some(text) => listed(texts(words@)) == Some(text@),
            None => listed(texts(words@)) is None,
        },
{
    let n = words.len();
    if n == 0 {
        None
    } else if n == 1 {
        Some(words[0].clone())
    } else if n == 2 {
        let mut out = words[0].clone();
        out.append(" and ");
        out.append(words[1].as_str());
        Some(out)
    } else {
        let ghost all = texts(words@);
        let ghost init = all.drop_last();
        let mut out = words[0].clone();
        let mut i: usize = 1;
        assert(init.subrange(0, 1) =~= seq![all[0]]);
        while i < n - 1
            invariant
                1 <= i <= n - 1,
                n == words@.len(),
                all == texts(words@),
                init == all.drop_last(),
                out@ == comma_joined(init.subrange(0, i as int)),
            decreases n - i,
        {
            out.append(", ");
            out.append(words[i].as_str());
            assert(init.subrange(0, i + 1).drop_last() =~= init.subrange(0, i as int));
            assert(init.subrange(0, i + 1).last() == all[i as int]);
            i += 1;
        }
        assert(init.subrange(0, i as int) =~= init);
        out.append(", and ");
        out.append(words[n - 1].as_str());
        Some(out)
    }
}

} // verus!
