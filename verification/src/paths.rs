//! Paths as text. A path is a string whose components are separated by
//! `/`. Joining always leads downwards: what is joined to a directory stands
//! below that directory, whatever it begins with.

use vstd::prelude::*;
use crate::text::{chars_of, push_text, string_of};

verus! {

/// `part` without the separators that it begins with.
pub open spec fn without_leading_separators(part: Seq<char>) -> Seq<char>
    decreases part.len(),
{
    if part.len() > 0 && part[0] == '/' {
        without_leading_separators(part.drop_first())
    } else {
        part
    }
}

/// The path of `part` below the directory `base`: `base`, one `/` unless
/// `base` is empty or ends in one already, and `part` without the separators
/// that it begins with. A `part` that begins with `/` does not take the place
/// of `base`: it stands below `base` like any other.
pub open spec fn joined_path(base: Seq<char>, part: Seq<char>) -> Seq<char> {
    if base.len() == 0 || base.last() == '/' {
        base + without_leading_separators(part)
    } else {
        base.push('/') + without_leading_separators(part)
    }
}

/// Joins `part` to `base`.
pub fn join(base: &str, part: &str) -> (r: String)
    ensures
        r@ == joined_path(base@, part@),
{
    let p = chars_of(part);
    let mut start: usize = 0;
    proof {
        assert(p@.skip(0) =~= p@);
    }
    while start < p.len() && p[start] == '/'
        invariant
            start <= p.len(),
            without_leading_separators(p@) == without_leading_separators(p@.skip(start as int)),
        decreases p.len() - start,
    {
        proof {
            assert(p@.skip(start as int).drop_first() =~= p@.skip(start + 1));
        }
        start += 1;
    }
    let below = string_of(&p, start, p.len());
    proof {
        assert(p@.skip(start as int) =~= p@.subrange(start as int, p.len() as int));
    }
    let b = chars_of(base);
    let mut out = String::new();
    push_text(&mut out, base);
    if b.len() > 0 && b[b.len() - 1] != '/' {
        out.push('/');
    }
    push_text(&mut out, below.as_str());
    assert(out@ =~= joined_path(base@, part@));
    out
}

/// A joined path stands below its base: it begins with the base, as it is,
/// and ends with the part, less the separators in front of it. Where the
/// base is not empty, a `/` stands between the two.
pub proof fn lemma_join_stays_below(base: Seq<char>, part: Seq<char>)
    ensures
        base.is_prefix_of(joined_path(base, part)),
        without_leading_separators(part).is_suffix_of(joined_path(base, part)),
        base.len() > 0 ==> joined_path(base, part)[joined_path(base, part).len()
            - without_leading_separators(part).len() - 1] == '/',
{
    let joined = joined_path(base, part);
    let below = without_leading_separators(part);
    assert(joined.subrange(0, base.len() as int) =~= base);
    assert(joined.subrange(joined.len() - below.len(), joined.len() as int) =~= below);
}

} // verus!
