//! Names derived from a feature description: branch slugs and session names.

use crate::text;
use crate::text::{
    after_last_str, chars_of, fit_bytes, is_letter_or_digit, own, rfind_char_in, string_of, strip_prefix,
    to_lower,
};
use vstd::prelude::*;
use vstd::slice::slice_subrange;

verus! {

// ---------------------------------------------------------------------------
// Slugs
// ---------------------------------------------------------------------------

/// The most bytes that a slug takes.
pub const MAX_SLUG_BYTES: usize = 60;

/// The words of a lowered description with single hyphens between them: every
/// run of other characters becomes one hyphen, none at the start.
pub open spec fn hyphenate(s: Seq<char>) -> Seq<char>
    decreases s.len(),
{
    if s.len() == 0 {
        Seq::empty()
    } else {
        let head = hyphenate(s.drop_last());
        if text::is_alnum(s.last()) && s.last() != '-' {
            head.push(s.last())
        } else if head.len() > 0 && head.last() != '-' {
            head.push('-')
        } else {
            head
        }
    }
}

/// A string without its trailing hyphens.
pub open spec fn trim_hyphens(s: Seq<char>) -> Seq<char>
    decreases s.len(),
{
    if s.len() > 0 && s.last() == '-' {
        trim_hyphens(s.drop_last())
    } else {
        s
    }
}

/// The slug before it is cut to size.
pub open spec fn whole_slug(lowered: Seq<char>) -> Seq<char> {
    trim_hyphens(hyphenate(lowered))
}

/// Whether a string can be cut after so many bytes: it is no longer than that,
/// or a character ends there.
pub open spec fn cuts_at(s: Seq<char>, bytes: nat) -> bool {
    text::utf8_len(s) > bytes ==> text::utf8_len(s.take(text::fitting(s, bytes) as int)) == bytes
}

/// A slug that is too long is cut at the last hyphen within the limit, so that no
/// word is torn; where there is no hyphen, at the limit.
pub open spec fn cut_slug(whole: Seq<char>) -> Seq<char> {
    if text::utf8_len(whole) > MAX_SLUG_BYTES {
        let head = whole.take(text::fitting(whole, MAX_SLUG_BYTES as nat) as int);
        let pos = text::rfind_char(head, '-');
        if pos >= 0 {
            head.take(pos)
        } else {
            head
        }
    } else {
        whole
    }
}

/// The slug of a lowered description.
pub open spec fn slug_of(lowered: Seq<char>) -> Seq<char> {
    cut_slug(whole_slug(lowered))
}

fn hyphenate_chars(s: &[char]) -> (r: Vec<char>)
    ensures
        r@ == hyphenate(s@),
{
    let mut out: Vec<char> = Vec::new();
    let mut i: usize = 0;
    assert(s@.take(0) =~= Seq::<char>::empty());
    while i < s.len()
        invariant
            i <= s.len(),
            out@ == hyphenate(s@.take(i as int)),
        decreases s.len() - i,
    {
        let c: char = s[i];
        assert(s@.take(i + 1).drop_last() =~= s@.take(i as int));
        if is_letter_or_digit(c) && c != '-' {
            out.push(c);
        } else if out.len() > 0 && out[out.len() - 1] != '-' {
            out.push('-');
        }
        i = i + 1;
    }
    assert(s@.take(s@.len() as int) =~= s@);
    out
}

fn trim_hyphens_chars(s: &[char]) -> (r: &[char])
    ensures
        r@ == trim_hyphens(s@),
{
    let mut n: usize = s.len();
    assert(s@.take(n as int) =~= s@);
    while n > 0 && s[n - 1] == '-'
        invariant
            n <= s.len(),
            trim_hyphens(s@) == trim_hyphens(s@.take(n as int)),
        decreases n,
    {
        assert(s@.take(n as int).drop_last() =~= s@.take(n - 1));
        n = n - 1;
    }
    assert(s@.take(n as int) =~= s@.subrange(0, n as int));
    slice_subrange(s, 0, n)
}

/// The slug of a description that was lowered already. `None` where the slug
/// would have to be cut in the middle of a character.
pub fn slug_from_lowered(lowered: &str) -> (r: Option<String>)
    ensures
        match r {
            Some(slug) => cuts_at(whole_slug(lowered@), MAX_SLUG_BYTES as nat) && slug@ == slug_of(
                lowered@,
            ),
            None => !cuts_at(whole_slug(lowered@), MAX_SLUG_BYTES as nat),
        },
{
    let all = chars_of(lowered);
    let hyphenated = hyphenate_chars(all.as_slice());
    let whole = trim_hyphens_chars(hyphenated.as_slice());
    let (n, used) = fit_bytes(whole, MAX_SLUG_BYTES);
    proof {
        text::lemma_fitting(whole@, MAX_SLUG_BYTES as nat);
        assert(whole@.take(whole@.len() as int) =~= whole@);
    }
    if n == whole.len() {
        return Some(string_of(whole));
    }
    proof {
        text::lemma_utf8_len_take(whole@, n as int);
        text::lemma_utf8_len_take(whole@, n + 1);
    }
    if used != MAX_SLUG_BYTES {
        return None;
    }
    let head = slice_subrange(whole, 0, n);
    assert(head@ =~= whole@.take(n as int));
    match rfind_char_in(head, '-') {
        Some(pos) => {
            assert(head@.subrange(0, pos as int) =~= head@.take(pos as int));
            Some(string_of(slice_subrange(head, 0, pos)))
        },
        None => Some(string_of(head)),
    }
}

/// Whether the slug of a description can be cut to size.
pub open spec fn slug_cuts(description: Seq<char>) -> bool {
    cuts_at(whole_slug(text::lower(description)), MAX_SLUG_BYTES as nat)
}

/// Slugify a feature description into a branch-safe name. The description must
/// not make a slug that is cut in the middle of a character.
pub fn slugify(description: &str) -> (r: String)
    requires
        slug_cuts(description@),
    ensures
        r@ == slug_of(text::lower(description@)),
{
    match slug_from_lowered(to_lower(description).as_str()) {
        Some(slug) => slug,
        None => String::new(),
    }
}

/// Slugify a feature description, or `None` where its slug would be cut in the
/// middle of a character.
pub fn try_slugify(description: &str) -> (r: Option<String>)
    ensures
        match r {
            Some(slug) => slug_cuts(description@) && slug@ == slug_of(
                text::lower(description@),
            ),
            None => !slug_cuts(description@),
        },
{
    match slug_from_lowered(to_lower(description).as_str()) {
        Some(_) => Some(slugify(description)),
        None => None,
    }
}

// ---------------------------------------------------------------------------
// What slugs look like
// ---------------------------------------------------------------------------

/// Whether a slug is made of words of letters and digits with single hyphens
/// between them, none at the start.
pub open spec fn slug_shape(s: Seq<char>) -> bool {
    &&& forall|i: int| 0 <= i < s.len() ==> s[i] == '-' || text::is_alnum(#[trigger] s[i])
    &&& forall|i: int| 0 < i < s.len() ==> !(s[i - 1] == '-' && #[trigger] s[i] == '-')
    &&& s.len() > 0 ==> s[0] != '-'
}

proof fn lemma_hyphenate_shape(s: Seq<char>)
    ensures
        slug_shape(hyphenate(s)),
        hyphenate(s).len() <= s.len(),
    decreases s.len(),
{
    if s.len() > 0 {
        lemma_hyphenate_shape(s.drop_last());
    }
}

proof fn lemma_shape_take(s: Seq<char>, n: int)
    requires
        slug_shape(s),
        0 <= n <= s.len(),
    ensures
        slug_shape(s.take(n)),
{
    assert forall|i: int| 0 < i < n implies !(s.take(n)[i - 1] == '-' && #[trigger] s.take(n)[i]
        == '-') by {
        assert(s.take(n)[i] == s[i]);
    }
    assert forall|i: int| 0 <= i < n implies s.take(n)[i] == '-' || text::is_alnum(
        #[trigger] s.take(n)[i],
    ) by {
        assert(s.take(n)[i] == s[i]);
    }
}

proof fn lemma_trim_hyphens(s: Seq<char>)
    ensures
        exists|n: int| 0 <= n <= s.len() && trim_hyphens(s) == #[trigger] s.take(n),
        trim_hyphens(s).len() > 0 ==> trim_hyphens(s).last() != '-',
    decreases s.len(),
{
    if s.len() > 0 && s.last() == '-' {
        lemma_trim_hyphens(s.drop_last());
        let n = choose|n: int|
            0 <= n <= s.drop_last().len() && trim_hyphens(s.drop_last())
                == #[trigger] s.drop_last().take(n);
        assert(s.drop_last().take(n) =~= s.take(n));
    } else {
        assert(s.take(s.len() as int) =~= s);
    }
}

proof fn lemma_rfind(s: Seq<char>, c: char)
    ensures
        -1 <= text::rfind_char(s, c) < s.len(),
        text::rfind_char(s, c) >= 0 ==> s[text::rfind_char(s, c)] == c,
    decreases s.len(),
{
    if s.len() > 0 && s.last() != c {
        lemma_rfind(s.drop_last(), c);
    }
}

/// A slug is a branch-safe name: letters and digits in words with single hyphens
/// between them, no hyphen at either end, and at most sixty bytes.
pub proof fn law_slug_is_branch_safe(lowered: Seq<char>)
    ensures
        slug_shape(slug_of(lowered)),
        slug_of(lowered).len() > 0 ==> slug_of(lowered).last() != '-',
        text::utf8_len(slug_of(lowered)) <= MAX_SLUG_BYTES,
{
    let h = hyphenate(lowered);
    lemma_hyphenate_shape(lowered);
    lemma_trim_hyphens(h);
    let n = choose|n: int| 0 <= n <= h.len() && trim_hyphens(h) == #[trigger] h.take(n);
    lemma_shape_take(h, n);
    let whole = whole_slug(lowered);
    if text::utf8_len(whole) > MAX_SLUG_BYTES {
        text::lemma_fitting(whole, MAX_SLUG_BYTES as nat);
        let k = text::fitting(whole, MAX_SLUG_BYTES as nat) as int;
        let head = whole.take(k);
        lemma_shape_take(whole, k);
        lemma_rfind(head, '-');
        let pos = text::rfind_char(head, '-');
        if pos >= 0 {
            lemma_shape_take(head, pos);
            text::lemma_utf8_len_take(head, pos);
            if pos > 0 {
                assert(head[pos] == '-');
                assert(head.take(pos).last() == head[pos - 1]);
            }
        } else {
            if head.len() > 0 && head.last() == '-' {
                assert(text::rfind_char(head, '-') == head.len() - 1);
            }
        }
    }
}

/// The slug of a slug is that slug, wherever lowering leaves it as it is.
pub proof fn law_slug_of_slug(lowered: Seq<char>)
    ensures
        slug_of(slug_of(lowered)) == slug_of(lowered),
{
    law_slug_is_branch_safe(lowered);
    lemma_hyphenate_keeps(slug_of(lowered));
}

proof fn lemma_hyphenate_keeps(s: Seq<char>)
    requires
        slug_shape(s),
    ensures
        hyphenate(s) == s,
    decreases s.len(),
{
    if s.len() > 0 {
        lemma_shape_take(s, s.len() - 1);
        assert(s.take(s.len() - 1) =~= s.drop_last());
        lemma_hyphenate_keeps(s.drop_last());
        if s.last() == '-' {
            assert(s.len() > 1);
            assert(s.drop_last().last() == s[s.len() - 2]);
            assert(!(s[s.len() - 2] == '-' && s[s.len() - 1] == '-'));
        }
        assert(s.drop_last().push(s.last()) =~= s);
    } else {
        assert(hyphenate(s) =~= s);
    }
}

proof fn lemma_hyphenate_ascii(s: Seq<char>)
    requires
        text::all_ascii(s),
    ensures
        text::all_ascii(hyphenate(s)),
    decreases s.len(),
{
    if s.len() > 0 {
        assert((s.last() as u32) < 128);
        lemma_hyphenate_ascii(s.drop_last());
    }
}

/// A lowered description of ASCII characters can always be cut to size.
pub proof fn law_ascii_slug_cuts(lowered: Seq<char>)
    requires
        text::all_ascii(lowered),
    ensures
        cuts_at(whole_slug(lowered), MAX_SLUG_BYTES as nat),
{
    let h = hyphenate(lowered);
    lemma_hyphenate_ascii(lowered);
    lemma_trim_hyphens(h);
    lemma_ascii_cuts(whole_slug(lowered), MAX_SLUG_BYTES as nat);
}

/// A string of ASCII characters can be cut after any number of bytes.
pub proof fn lemma_ascii_cuts(s: Seq<char>, bytes: nat)
    requires
        text::all_ascii(s),
    ensures
        cuts_at(s, bytes),
{
    if text::utf8_len(s) > bytes {
        text::lemma_utf8_len_ascii(s);
        text::lemma_utf8_len_ascii(s.take(bytes as int));
        text::lemma_utf8_len_ascii(s.take(bytes as int + 1));
        text::lemma_fitting_is(s, bytes, bytes as int);
    }
}

// ---------------------------------------------------------------------------
// Session names
// ---------------------------------------------------------------------------

/// The most bytes that a session name takes.
pub const MAX_SESSION_BYTES: usize = 50;

/// The bytes of a session name that are kept where a suffix is added.
pub const SESSION_STEM_BYTES: usize = 44;

/// The longest beginning of a string that takes at most so many bytes.
pub open spec fn cut(s: Seq<char>, bytes: nat) -> Seq<char> {
    s.take(text::fitting(s, bytes) as int)
}

/// A name with the characters that tmux reserves turned into hyphens.
pub open spec fn sanitize(s: Seq<char>) -> Seq<char> {
    Seq::new(s.len(), |i: int| if s[i] == '.' || s[i] == ':' { '-' } else { s[i] })
}

/// The session name of a slug before it is cut to size.
pub open spec fn whole_session_name(slug: Seq<char>) -> Seq<char> {
    sanitize("feat-"@ + slug)
}

/// The session name of a slug.
pub open spec fn session_name(slug: Seq<char>) -> Seq<char> {
    cut(whole_session_name(slug), MAX_SESSION_BYTES as nat)
}

fn sanitize_chars(s: &[char]) -> (r: Vec<char>)
    ensures
        r@ == sanitize(s@),
{
    let mut out: Vec<char> = Vec::new();
    let mut i: usize = 0;
    while i < s.len()
        invariant
            i <= s.len(),
            out@ == sanitize(s@).take(i as int),
        decreases s.len() - i,
    {
        let c: char = s[i];
        if c == '.' || c == ':' {
            out.push('-');
        } else {
            out.push(c);
        }
        i = i + 1;
        assert(sanitize(s@).take(i as int) =~= sanitize(s@).take(i - 1).push(sanitize(s@)[i - 1]));
    }
    assert(sanitize(s@).take(s@.len() as int) =~= sanitize(s@));
    out
}

/// The longest beginning of a string that takes at most so many bytes.
pub fn cut_bytes(s: &str, bytes: usize) -> (r: String)
    ensures
        r@ == cut(s@, bytes as nat),
{
    let cs = chars_of(s);
    let (n, _used) = fit_bytes(cs.as_slice(), bytes);
    assert(cs@.subrange(0, n as int) =~= cs@.take(n as int));
    string_of(slice_subrange(cs.as_slice(), 0, n))
}

/// Derive a tmux session name from the branch slug. The name must not have to be
/// cut in the middle of a character.
pub fn tmux_session_name(slug: &str) -> (r: String)
    requires
        session_fits(slug@),
    ensures
        r@ == session_name(slug@),
{
    let mut name = own("feat-");
    name.append(slug);
    let cs = chars_of(name.as_str());
    let clean = sanitize_chars(cs.as_slice());
    cut_bytes(string_of(clean.as_slice()).as_str(), MAX_SESSION_BYTES)
}

/// Whether a string can be cut after so many bytes.
pub fn can_cut(s: &str, bytes: usize) -> (r: bool)
    ensures
        r == cuts_at(s@, bytes as nat),
{
    let cs = chars_of(s);
    let (n, used) = fit_bytes(cs.as_slice(), bytes);
    proof {
        text::lemma_fitting(cs@, bytes as nat);
        assert(cs@.take(cs@.len() as int) =~= cs@);
    }
    n == cs.len() || used == bytes
}

/// Whether a slug has a session name, with no cut in the middle of a character.
pub open spec fn session_fits(slug: Seq<char>) -> bool {
    cuts_at(whole_session_name(slug), MAX_SESSION_BYTES as nat)
}

/// Tests whether a slug has a session name.
pub fn session_name_fits(slug: &str) -> (r: bool)
    ensures
        r == session_fits(slug@),
{
    let mut name = own("feat-");
    name.append(slug);
    let cs = chars_of(name.as_str());
    let clean = string_of(sanitize_chars(cs.as_slice()).as_slice());
    can_cut(clean.as_str(), MAX_SESSION_BYTES)
}

/// A session name takes at most fifty bytes and holds neither of the characters
/// that tmux reserves.
pub proof fn law_session_name_is_clean(slug: Seq<char>)
    ensures
        text::utf8_len(session_name(slug)) <= MAX_SESSION_BYTES,
        forall|i: int|
            0 <= i < session_name(slug).len() ==> session_name(slug)[i] != '.' && session_name(
                slug,
            )[i] != ':',
{
    text::lemma_fitting(whole_session_name(slug), MAX_SESSION_BYTES as nat);
}

/// A session name with a number behind it, for when the name is in use. The name
/// is cut first, so that the number fits.
pub open spec fn suffixed_name(name: Seq<char>, suffix: nat) -> Seq<char> {
    cut(name, SESSION_STEM_BYTES as nat) + "-"@ + text::dec(suffix)
}

/// Adds a number to a session name that is in use. The name must not have to be
/// cut in the middle of a character.
pub fn suffix_session_name(name: &str, suffix: u32) -> (r: String)
    requires
        cuts_at(name@, SESSION_STEM_BYTES as nat),
    ensures
        r@ == suffixed_name(name@, suffix as nat),
{
    let mut out = cut_bytes(name, SESSION_STEM_BYTES);
    out.append("-");
    out.append(text::dec_u64(suffix as u64).as_str());
    out
}

/// The suffix for a session name, from the nanoseconds of the clock.
pub fn rand_suffix(subsec_nanos: u32) -> (r: u32)
    ensures
        r == subsec_nanos % 10000,
        r < 10000,
{
    subsec_nanos % 10000
}

// ---------------------------------------------------------------------------
// Finding a worktree by agent
// ---------------------------------------------------------------------------

/// An agent name without the prefix of a branch or of a session.
pub open spec fn without_branch_prefix(agent: Seq<char>) -> Seq<char> {
    if text::has_prefix(agent, "feature/"@) {
        agent.skip("feature/"@.len() as int)
    } else if text::has_prefix(agent, "feat-"@) {
        agent.skip("feat-"@.len() as int)
    } else {
        agent
    }
}

/// The worktree that an agent works in. Agents are named by their branch, by
/// their session or by the identifier `parent--slug`.
pub open spec fn worktree_slug(agent: Seq<char>) -> Seq<char> {
    text::after_last(without_branch_prefix(agent), "--"@)
}

/// Finds the worktree slug of an agent name.
pub fn agent_worktree_slug(agent: &str) -> (r: String)
    ensures
        r@ == worktree_slug(agent@),
{
    let slug = match strip_prefix(agent, "feature/") {
        Some(rest) => rest,
        None => match strip_prefix(agent, "feat-") {
            Some(rest) => rest,
            None => own(agent),
        },
    };
    after_last_str(slug.as_str(), "--")
}

/// The identifier of an agent that works for `parent` on `slug`.
pub open spec fn agent_id(parent: Seq<char>, slug: Seq<char>) -> Seq<char> {
    parent + "--"@ + slug
}

/// Makes the identifier of an agent. Without a configured parent the parent is
/// the driver.
pub fn child_agent_id(parent: Option<&str>, slug: &str) -> (r: String)
    ensures
        r@ == agent_id(
            match parent {
                Some(p) => p@,
                None => "driver"@,
            },
            slug@,
        ),
{
    let mut id = match parent {
        Some(p) => own(p),
        None => own("driver"),
    };
    id.append("--");
    id.append(slug);
    id
}

proof fn lemma_no_dashes_later(s: Seq<char>, from: int, i: int)
    requires
        0 <= from,
        forall|k: int| from <= k <= i ==> !text::occurs_at(s, "--"@, k),
        i >= from - 1,
    ensures
        text::rfind_from(s, "--"@, i) == text::rfind_from(s, "--"@, from - 1),
    decreases i + 1 - from,
{
    if i >= from {
        lemma_no_dashes_later(s, from, i - 1);
    }
}

/// The identifier of an agent leads back to the slug it was made from, for a
/// parent that is named neither like a branch nor like a session.
pub proof fn law_agent_id_leads_to_worktree(parent: Seq<char>, slug: Seq<char>)
    requires
        slug_shape(slug),
        !text::has_prefix(agent_id(parent, slug), "feature/"@),
        !text::has_prefix(agent_id(parent, slug), "feat-"@),
    ensures
        worktree_slug(agent_id(parent, slug)) == slug,
{
    let id = agent_id(parent, slug);
    let at = parent.len() as int;
    reveal_strlit("--");
    assert(id.subrange(at, at + 2) =~= "--"@);
    assert(text::occurs_at(id, "--"@, at));
    assert forall|k: int| at + 1 <= k <= id.len() - 2 implies !text::occurs_at(id, "--"@, k) by {
        if text::occurs_at(id, "--"@, k) {
            assert(id.subrange(k, k + 2)[0] == '-');
            assert(id.subrange(k, k + 2)[1] == '-');
            assert(id[k + 1] == '-');
            assert(id[k + 1] == slug[k + 1 - at - 2]);
            if k > at + 1 {
                assert(id[k] == slug[k - at - 2]);
                assert(!(slug[k - at - 2] == '-' && slug[k - at - 1] == '-'));
            }
        }
    }
    lemma_no_dashes_later(id, at + 1, id.len() - 2);
    assert(text::rfind_from(id, "--"@, at) == at);
    assert(id.skip(at + 2) =~= slug);
}

// ---------------------------------------------------------------------------
// What names keep
// ---------------------------------------------------------------------------

/// Whether a character is part of a word of a name.
pub open spec fn is_word_char(c: char) -> bool {
    text::is_alnum(c) && c != '-'
}

/// A slug before it is cut keeps every letter and digit of the description, in order.
pub proof fn law_slugs_keep_the_words(s: Seq<char>)
    ensures
        whole_slug(s).filter(|c: char| is_word_char(c)) == s.filter(|c: char| is_word_char(c)),
{
    lemma_hyphenate_keeps_words(s);
    lemma_trim_keeps_words(hyphenate(s));
}

proof fn lemma_hyphenate_keeps_words(s: Seq<char>)
    ensures
        hyphenate(s).filter(|c: char| is_word_char(c)) == s.filter(|c: char| is_word_char(c)),
    decreases s.len(),
{
    reveal(Seq::filter);
    let f = |c: char| is_word_char(c);
    if s.len() > 0 {
        lemma_hyphenate_keeps_words(s.drop_last());
        let head = hyphenate(s.drop_last());
        if is_word_char(s.last()) {
            assert(head.push(s.last()).drop_last() =~= head);
        } else if head.len() > 0 && head.last() != '-' {
            assert(head.push('-').drop_last() =~= head);
        }
    } else {
        assert(hyphenate(s) =~= s);
    }
}

proof fn lemma_trim_keeps_words(s: Seq<char>)
    ensures
        trim_hyphens(s).filter(|c: char| is_word_char(c)) == s.filter(|c: char| is_word_char(c)),
    decreases s.len(),
{
    reveal(Seq::filter);
    if s.len() > 0 && s.last() == '-' {
        lemma_trim_keeps_words(s.drop_last());
    }
}

/// A slug that fits is not cut. One that does not is a beginning of the whole, and where there is
/// a hyphen within the limit it ends before one, so that no word is torn.
pub proof fn law_slugs_are_cut_between_words(lowered: Seq<char>)
    ensures
        text::utf8_len(whole_slug(lowered)) <= 60 ==> slug_of(lowered) == whole_slug(lowered),
        text::has_prefix(whole_slug(lowered), slug_of(lowered)),
        ({
            let whole = whole_slug(lowered);
            let n = text::fitting(whole, 60) as int;
            &&& text::utf8_len(whole) > 60 && whole.take(n).contains('-') ==> slug_of(lowered).len()
                < n && whole[slug_of(lowered).len() as int] == '-'
            &&& text::utf8_len(whole) > 60 && !whole.take(n).contains('-') ==> slug_of(lowered)
                == whole.take(n)
        }),
{
    let whole = whole_slug(lowered);
    if text::utf8_len(whole) > MAX_SLUG_BYTES {
        text::lemma_fitting(whole, MAX_SLUG_BYTES as nat);
        let n = text::fitting(whole, MAX_SLUG_BYTES as nat) as int;
        let head = whole.take(n);
        lemma_rfind(head, '-');
        lemma_rfind_finds(head, '-');
        let pos = text::rfind_char(head, '-');
        if pos >= 0 {
            assert(whole.take(pos) =~= head.take(pos));
            assert(head.contains(head[pos]));
        } else {
            assert(!head.contains('-'));
        }
    } else {
        assert(whole.take(whole.len() as int) =~= whole);
    }
}

proof fn lemma_rfind_finds(s: Seq<char>, c: char)
    ensures
        s.contains(c) ==> text::rfind_char(s, c) >= 0,
    decreases s.len(),
{
    if s.len() > 0 && s.last() != c && s.contains(c) {
        let i = choose|i: int| 0 <= i < s.len() && s[i] == c;
        assert(s.drop_last()[i] == c);
        lemma_rfind_finds(s.drop_last(), c);
    }
}

/// A session is called like its slug, behind a word of its own, where that fits and tmux reserves
/// none of its characters.
pub proof fn law_sessions_are_called_after_the_slug(slug: Seq<char>)
    ensures
        text::utf8_len("feat-"@ + slug) <= 50 && !slug.contains('.') && !slug.contains(':')
            ==> session_name(slug) == "feat-"@ + slug,
        text::has_prefix(whole_session_name(slug), "feat-"@),
        text::has_prefix(whole_session_name(slug), session_name(slug)),
{
    reveal_strlit("feat-");
    let name = "feat-"@ + slug;
    assert(sanitize(name).take(5) =~= "feat-"@);
    text::lemma_fitting(sanitize(name), 50);
    let s = session_name(slug);
    assert(sanitize(name).take(s.len() as int) =~= s);
    if !slug.contains('.') && !slug.contains(':') {
        assert(sanitize(name) =~= name) by {
            assert forall|i: int| 0 <= i < name.len() implies sanitize(name)[i] == name[i] by {
                if i >= 5 {
                    assert(name[i] == slug[i - 5]);
                    assert(slug.contains(slug[i - 5]));
                }
            }
        }
        if text::utf8_len(name) <= 50 {
            text::lemma_fitting_is(name, 50, name.len() as int);
            assert(name.take(name.len() as int) =~= name);
        }
    }
}

/// A name with a number keeps its beginning and ends with that number, so that different numbers
/// make different names.
pub proof fn law_suffixes_make_names_differ(name: Seq<char>, a: nat, b: nat)
    ensures
        text::has_suffix(suffixed_name(name, a), "-"@ + text::dec(a)),
        text::has_prefix(suffixed_name(name, a), cut(name, SESSION_STEM_BYTES as nat)),
        text::has_prefix(name, cut(name, SESSION_STEM_BYTES as nat)),
        a != b ==> suffixed_name(name, a) != suffixed_name(name, b),
{
    let stem = cut(name, SESSION_STEM_BYTES as nat);
    text::lemma_regroup(stem, "-"@, text::dec(a), stem, stem);
    text::lemma_suffix_of_sum(stem, "-"@ + text::dec(a));
    text::lemma_prefix_of_sum(stem, "-"@ + text::dec(a));
    text::lemma_fitting(name, SESSION_STEM_BYTES as nat);
    assert(name.take(stem.len() as int) =~= stem);
    if suffixed_name(name, a) == suffixed_name(name, b) {
        let n = (stem + "-"@).len() as int;
        assert((stem + "-"@ + text::dec(a)).skip(n) =~= text::dec(a));
        assert((stem + "-"@ + text::dec(b)).skip(n) =~= text::dec(b));
        text::lemma_dec_injective(a, b);
    }
}

/// An agent that is named by its branch or by its session leads to the worktree of that name.
pub proof fn law_branches_lead_to_worktrees(slug: Seq<char>)
    requires
        slug_shape(slug),
    ensures
        worktree_slug("feature/"@ + slug) == slug,
        worktree_slug("feat-"@ + slug) == slug,
        !text::has_prefix(slug, "feature/"@) && !text::has_prefix(slug, "feat-"@) ==> worktree_slug(
            slug,
        ) == slug,
{
    reveal_strlit("feature/");
    reveal_strlit("feat-");
    reveal_strlit("--");
    let a = "feature/"@ + slug;
    let b = "feat-"@ + slug;
    assert(a.take(8) =~= "feature/"@ && a.skip(8) =~= slug);
    assert(b.take(5) =~= "feat-"@ && b.skip(5) =~= slug);
    if b.len() >= 8 {
        assert(b.take(8)[4] == '-');
        assert("feature/"@[4] == 'u');
    }
    assert forall|k: int| 0 <= k <= slug.len() - 2 implies !text::occurs_at(slug, "--"@, k) by {
        if text::occurs_at(slug, "--"@, k) {
            assert(slug.subrange(k, k + 2)[0] == '-');
            assert(slug.subrange(k, k + 2)[1] == '-');
            assert(!(slug[k] == '-' && slug[k + 1] == '-'));
        }
    }
    if slug.len() >= 2 {
        lemma_no_dashes_later(slug, 0, slug.len() - 2);
    }
}

/// An agent is named by its parent and its slug; without a parent, by the driver.
pub proof fn law_children_are_named_after_their_parent(parent: Option<&str>, slug: &str, r: String)
    requires
        call_ensures(child_agent_id, (parent, slug), r),
    ensures
        parent matches Some(p) ==> r@ == p@ + "--"@ + slug@,
        parent is None ==> r@ == "driver"@ + "--"@ + slug@,
{
}

} // verus!
