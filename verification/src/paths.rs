//! Paths as texts, with `/` between their parts.

use crate::text::{chars_of, own, starts_with};
use crate::text;
use vstd::prelude::*;

verus! {

/// A path with a part put behind it. A part that is absolute takes the place of the
/// path; a slash is put between where the path does not end with one.
pub open spec fn joined(base: Seq<char>, part: Seq<char>) -> Seq<char> {
    if text::has_prefix(part, "/"@) || base.len() == 0 {
        part
    } else if base.last() == '/' {
        base + part
    } else {
        base + "/"@ + part
    }
}

/// Puts a part behind a path.
pub fn join_path(base: &str, part: &str) -> (r: String)
    ensures
        r@ == joined(base@, part@),
{
    if starts_with(part, "/") || base.is_empty() {
        return own(part);
    }
    let cs = chars_of(base);
    let mut out = own(base);
    if cs[cs.len() - 1] != '/' {
        out.append("/");
    }
    out.append(part);
    out
}

/// A path leads on from the directory to the part, with one slash between; an absolute part leads
/// to itself.
pub proof fn law_paths_lead_on(base: Seq<char>, part: Seq<char>)
    requires
        base.len() > 0,
    ensures
        part.len() > 0 && part[0] == '/' ==> joined(base, part) == part,
        part.len() > 0 && part[0] != '/' ==> text::has_prefix(joined(base, part), base)
            && text::has_suffix(joined(base, part), part),
        part.len() > 0 && part[0] != '/' && base.last() != '/' ==> joined(base, part) == base
            + seq!['/'] + part,
        part.len() > 0 && part[0] != '/' && base.last() == '/' ==> joined(base, part) == base
            + part,
{
    broadcast use {text::lemma_prefix_of_sum, text::lemma_suffix_of_sum};

    reveal_strlit("/");
    assert("/"@ =~= seq!['/']);
    if part.len() > 0 {
        assert(part.take(1)[0] == part[0]);
        if part[0] == '/' {
            assert(part.take(1) =~= "/"@);
        }
    }
    assert(base + "/"@ + part =~= base + ("/"@ + part));
}

} // verus!
