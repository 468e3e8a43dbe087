//! Acceptance criteria: their identifiers, and the file that lists them.

use crate::commands::design_doc::DesignDoc;
use crate::text;
use crate::text::{
    chars_of, dec_u64, find_char_in, is_ascii_digit, own, parse_u64, string_of, strip_prefix,
    to_lower_char, trim_str,
};
use vstd::prelude::*;
use vstd::slice::slice_subrange;

verus! {

/// A single acceptance criterion extracted from a design document.
#[derive(Debug, Clone, PartialEq)]
pub struct Criterion {
    pub id: String,
    pub text: String,
    pub criterion_type: String,
}

/// Machine-readable acceptance criteria file (`.kickoff-criteria.json`).
#[derive(Debug, Clone, PartialEq)]
pub struct CriteriaFile {
    pub source_doc: String,
    pub extracted_at: String,
    pub criteria: Vec<Criterion>,
}

// ---------------------------------------------------------------------------
// Identifiers
// ---------------------------------------------------------------------------

/// Whether a trimmed criterion starts with `AC-`, in either case.
pub open spec fn has_marker(t: Seq<char>) -> bool {
    t.len() >= 3 && text::lower_char(t[0]) == 'a' && text::lower_char(t[1]) == 'c' && t[2] == '-'
}

/// The digits between `AC-` and the first colon behind it.
pub open spec fn marked_digits(t: Seq<char>) -> Seq<char> {
    t.skip(3).take(text::find_char(t.skip(3), ':') as int)
}

/// Whether a trimmed criterion has an identifier of its own: `AC-`, digits, colon.
pub open spec fn is_marked(t: Seq<char>) -> bool {
    &&& has_marker(t)
    &&& text::find_char(t.skip(3), ':') < t.skip(3).len()
    &&& marked_digits(t).len() > 0
    &&& text::all_digits(marked_digits(t))
}

/// The identifier that a criterion gives itself, empty where it gives none.
pub open spec fn own_id(raw: Seq<char>) -> Seq<char> {
    let t = text::trim(raw);
    if is_marked(t) {
        "AC-"@ + marked_digits(t)
    } else {
        Seq::empty()
    }
}

/// The number that a criterion claims with the identifier that it gives itself. Zeros in
/// front do not count.
pub open spec fn own_number(raw: Seq<char>) -> Option<nat> {
    let t = text::trim(raw);
    if is_marked(t) {
        Some(text::digits_value(marked_digits(t)))
    } else {
        None
    }
}

/// The text of a criterion without its identifier.
pub open spec fn own_text(raw: Seq<char>) -> Seq<char> {
    let t = text::trim(raw);
    if is_marked(t) {
        text::trim(t.skip(marked_digits(t).len() as int + 4))
    } else {
        t
    }
}

fn all_ascii_digits(s: &[char]) -> (r: bool)
    ensures
        r == text::all_digits(s@),
{
    let mut i: usize = 0;
    while i < s.len()
        invariant
            i <= s@.len(),
            forall|k: int| 0 <= k < i ==> text::is_digit(#[trigger] s@[k]),
        decreases s@.len() - i,
    {
        if !is_ascii_digit(s[i]) {
            return false;
        }
        i = i + 1;
    }
    true
}

/// Parse an optional `AC-N:` prefix from a criterion string.
///
/// Returns `(id, remaining_text)`. If no prefix found, id is empty.
pub fn parse_criterion_id(criterion: &str) -> (r: (String, String))
    ensures
        r.0@ == own_id(criterion@),
        r.1@ == own_text(criterion@),
{
    let trimmed = trim_str(criterion);
    let t = chars_of(trimmed.as_str());
    if t.len() >= 3 && to_lower_char(t[0]) == 'a' && to_lower_char(t[1]) == 'c' && t[2] == '-' {
        let rest = slice_subrange(t.as_slice(), 3, t.len());
        assert(rest@ =~= t@.skip(3));
        let colon: usize = find_char_in(rest, ':');
        if colon < rest.len() {
            let digits = slice_subrange(rest, 0, colon);
            assert(digits@ =~= marked_digits(t@));
            if digits.len() > 0 && all_ascii_digits(digits) {
                let mut id = own("AC-");
                id.append(string_of(digits).as_str());
                let tail = slice_subrange(rest, colon + 1, rest.len());
                assert(tail@ =~= t@.skip(marked_digits(t@).len() as int + 4));
                return (id, trim_str(string_of(tail).as_str()));
            }
        }
    }
    (String::new(), trimmed)
}

// ---------------------------------------------------------------------------
// Numbering
// ---------------------------------------------------------------------------

/// The identifier with a number.
pub open spec fn numbered_id(n: nat) -> Seq<char> {
    "AC-"@ + text::dec(n)
}

/// Whether one of the first `n` criteria claims a number.
pub open spec fn is_claimed(raws: Seq<Seq<char>>, n: nat, number: nat) -> bool {
    exists|i: int| 0 <= i < n && own_number(#[trigger] raws[i]) == Some(number)
}

/// Whether `k` is the first number behind `c` that no criterion claims.
pub open spec fn is_next_free(raws: Seq<Seq<char>>, c: nat, k: nat) -> bool {
    &&& k > c
    &&& !is_claimed(raws, raws.len(), k)
    &&& forall|j: nat| c < j < k ==> #[trigger] is_claimed(raws, raws.len(), j)
}

/// The first number behind `c` that no criterion claims.
pub open spec fn next_free(raws: Seq<Seq<char>>, c: nat) -> nat {
    choose|k: nat| is_next_free(raws, c, k)
}

/// The last number that has been given to one of the first `n` criteria.
pub open spec fn last_number(raws: Seq<Seq<char>>, n: nat) -> nat
    decreases n,
{
    if n == 0 {
        0
    } else if own_id(raws[n - 1]).len() > 0 {
        last_number(raws, (n - 1) as nat)
    } else {
        next_free(raws, last_number(raws, (n - 1) as nat))
    }
}

/// The identifier of a criterion: its own, or the next number that is free.
pub open spec fn assigned_id(raws: Seq<Seq<char>>, i: int) -> Seq<char> {
    if own_id(raws[i]).len() > 0 {
        own_id(raws[i])
    } else {
        numbered_id(last_number(raws, (i + 1) as nat))
    }
}

/// How many of the numbers up to `c` are claimed.
spec fn claimed_up_to(raws: Seq<Seq<char>>, c: nat) -> nat
    decreases c,
{
    if c == 0 {
        0
    } else {
        claimed_up_to(raws, (c - 1) as nat) + if is_claimed(raws, raws.len(), c) {
            1nat
        } else {
            0nat
        }
    }
}

/// How many of the first `n` criteria give themselves an identifier.
spec fn own_count(raws: Seq<Seq<char>>, n: nat) -> nat
    decreases n,
{
    if n == 0 {
        0
    } else {
        own_count(raws, (n - 1) as nat) + if own_number(raws[n - 1]) is Some {
            1nat
        } else {
            0nat
        }
    }
}

/// The numbers that the first `n` criteria claim.
spec fn own_numbers(raws: Seq<Seq<char>>, n: nat) -> Set<nat>
    decreases n,
{
    if n == 0 {
        Set::empty()
    } else {
        match own_number(raws[n - 1]) {
            Some(k) => own_numbers(raws, (n - 1) as nat).insert(k),
            None => own_numbers(raws, (n - 1) as nat),
        }
    }
}

proof fn lemma_own_numbers(raws: Seq<Seq<char>>, n: nat)
    requires
        n <= raws.len(),
    ensures
        own_numbers(raws, n).finite(),
        own_numbers(raws, n).len() <= own_count(raws, n),
        own_count(raws, n) <= n,
        forall|k: nat| #[trigger] own_numbers(raws, n).contains(k) <==> is_claimed(raws, n, k),
    decreases n,
{
    if n > 0 {
        let m = (n - 1) as nat;
        lemma_own_numbers(raws, m);
        assert forall|k: nat| #[trigger] own_numbers(raws, n).contains(k) <==> is_claimed(
            raws,
            n,
            k,
        ) by {
            if own_numbers(raws, n).contains(k) {
                if own_numbers(raws, m).contains(k) {
                    let i = choose|i: int| 0 <= i < m && own_number(#[trigger] raws[i]) == Some(k);
                    assert(own_number(raws[i]) == Some(k));
                } else {
                    assert(own_number(raws[n - 1]) == Some(k));
                }
            }
            if is_claimed(raws, n, k) {
                let i = choose|i: int| 0 <= i < n && own_number(#[trigger] raws[i]) == Some(k);
                if i < m {
                    assert(is_claimed(raws, m, k));
                }
            }
        }
    }
}

/// The claimed numbers up to `c`.
proof fn lemma_claimed_set(raws: Seq<Seq<char>>, c: nat) -> (s: Set<nat>)
    ensures
        s.finite(),
        s.len() == claimed_up_to(raws, c),
        forall|k: nat| #[trigger] s.contains(k) ==> is_claimed(raws, raws.len(), k) && k <= c,
    decreases c,
{
    if c == 0 {
        Set::empty()
    } else {
        let s = lemma_claimed_set(raws, (c - 1) as nat);
        if is_claimed(raws, raws.len(), c) {
            assert(!s.contains(c));
            s.insert(c)
        } else {
            s
        }
    }
}

proof fn lemma_numbered_id_injective(a: nat, b: nat)
    ensures
        numbered_id(a) == numbered_id(b) ==> a == b,
{
    if numbered_id(a) == numbered_id(b) {
        let n = "AC-"@.len() as int;
        assert(numbered_id(a).skip(n) =~= text::dec(a));
        assert(numbered_id(b).skip(n) =~= text::dec(b));
        text::lemma_dec_injective(a, b);
    }
}

/// No more numbers are claimed than criteria give themselves an identifier.
proof fn lemma_claimed_bound(raws: Seq<Seq<char>>, c: nat)
    ensures
        claimed_up_to(raws, c) <= own_count(raws, raws.len()),
{
    let s = lemma_claimed_set(raws, c);
    let t = own_numbers(raws, raws.len());
    lemma_own_numbers(raws, raws.len());
    assert(s.subset_of(t));
    vstd::set_lib::lemma_len_subset(s, t);
}

/// How many of the numbers up to `c` are not claimed.
spec fn free_up_to(raws: Seq<Seq<char>>, c: nat) -> nat {
    (c - claimed_up_to(raws, c)) as nat
}

proof fn lemma_claimed_le(raws: Seq<Seq<char>>, c: nat)
    ensures
        claimed_up_to(raws, c) <= c,
    decreases c,
{
    if c > 0 {
        lemma_claimed_le(raws, (c - 1) as nat);
    }
}

fn has_number(numbers: &Vec<u64>, number: u64) -> (r: bool)
    ensures
        r == numbers@.contains(number),
{
    let mut i: usize = 0;
    while i < numbers.len()
        invariant
            i <= numbers@.len(),
            forall|k: int| 0 <= k < i ==> #[trigger] numbers@[k] != number,
        decreases numbers@.len() - i,
    {
        if numbers[i] == number {
            return true;
        }
        i = i + 1;
    }
    false
}

/// A criterion has an identifier of its own exactly if it claims a number.
proof fn lemma_own_id(raw: Seq<char>)
    ensures
        own_id(raw).len() > 0 <==> own_number(raw) is Some,
{
    reveal_strlit("AC-");
}

/// The number that a criterion claims, where it fits in 64 bits.
fn claimed_number(criterion: &str) -> (r: Option<u64>)
    ensures
        match r {
            Some(n) => own_number(criterion@) == Some(n as nat),
            None => own_number(criterion@) matches Some(n) ==> n > u64::MAX,
        },
{
    let (id, _text) = parse_criterion_id(criterion);
    proof {
        reveal_strlit("AC-");
    }
    match strip_prefix(id.as_str(), "AC-") {
        Some(digits) => {
            proof {
                let t = text::trim(criterion@);
                assert(is_marked(t));
                assert(digits@ =~= marked_digits(t));
                assert(text::is_digit(digits@[0]));
            }
            parse_u64(digits.as_str())
        },
        None => {
            proof {
                let t = text::trim(criterion@);
                if is_marked(t) {
                    assert(id@.take("AC-"@.len() as int) =~= "AC-"@);
                }
            }
            None
        },
    }
}

fn id_with_number(n: u32) -> (r: String)
    ensures
        r@ == numbered_id(n as nat),
{
    let mut id = own("AC-");
    id.append(dec_u64(n as u64).as_str());
    id
}

/// Whether a list holds the claimed numbers, up to those that do not fit in 64 bits.
spec fn lists_claimed(numbers: Seq<u64>, raws: Seq<Seq<char>>) -> bool {
    forall|k: u64| #[trigger]
        numbers.contains(k) <==> is_claimed(raws, raws.len(), k as nat)
}

/// The numbers that criteria claim.
fn claimed_numbers(raws: &Vec<String>) -> (r: Vec<u64>)
    ensures
        lists_claimed(r@, text::strs(raws@)),
{
    let ghost views = text::strs(raws@);
    let mut numbers: Vec<u64> = Vec::new();
    let mut i: usize = 0;
    while i < raws.len()
        invariant
            i <= raws@.len(),
            views == text::strs(raws@),
            views.len() == raws@.len(),
            forall|k: u64| #[trigger]
                numbers@.contains(k) <==> is_claimed(views, i as nat, k as nat),
        decreases raws@.len() - i,
    {
        let claimed = claimed_number(raws[i].as_str());
        assert(views[i as int] == raws@[i as int]@);
        let ghost before = numbers@;
        if let Some(n) = claimed {
            numbers.push(n);
            assert(numbers@[numbers@.len() - 1] == n);
        }
        proof {
            assert forall|k: u64| #[trigger]
                numbers@.contains(k) <==> is_claimed(views, (i + 1) as nat, k as nat) by {
                assert(before.contains(k) <==> is_claimed(views, i as nat, k as nat));
                if numbers@.contains(k) {
                    let j = choose|j: int| 0 <= j < numbers@.len() && numbers@[j] == k;
                    if j < before.len() {
                        assert(before[j] == k);
                        let m = choose|m: int|
                            0 <= m < i && own_number(#[trigger] views[m]) == Some(k as nat);
                        assert(own_number(views[m]) == Some(k as nat));
                    } else {
                        assert(own_number(views[i as int]) == Some(k as nat));
                    }
                }
                if is_claimed(views, (i + 1) as nat, k as nat) {
                    let m = choose|m: int|
                        0 <= m < i + 1 && own_number(#[trigger] views[m]) == Some(k as nat);
                    if m < i {
                        assert(is_claimed(views, i as nat, k as nat));
                        let j = choose|j: int| 0 <= j < before.len() && before[j] == k;
                        assert(numbers@[j] == k);
                    }
                }
            }
        }
        i = i + 1;
    }
    numbers
}

/// The number for the next criterion without an identifier of its own.
fn find_free(
    claimed: &Vec<u64>,
    last: u32,
    Ghost(raws): Ghost<Seq<Seq<char>>>,
    Ghost(autos): Ghost<nat>,
) -> (r: u32)
    requires
        raws.len() < u32::MAX,
        lists_claimed(claimed@, raws),
        free_up_to(raws, last as nat) == autos,
        autos + own_count(raws, raws.len()) < raws.len(),
    ensures
        is_next_free(raws, last as nat, r as nat),
        free_up_to(raws, r as nat) == autos + 1,
{
    let mut n: u32 = last;
    proof {
        lemma_claimed_bound(raws, last as nat);
        lemma_claimed_le(raws, last as nat);
    }
    loop
        invariant
            raws.len() < u32::MAX,
            last <= n,
            n < raws.len(),
            lists_claimed(claimed@, raws),
            free_up_to(raws, n as nat) == autos,
            autos + own_count(raws, raws.len()) < raws.len(),
            forall|j: nat| last < j <= n ==> #[trigger] is_claimed(raws, raws.len(), j),
        decreases raws.len() - n,
    {
        n = n + 1;
        proof {
            lemma_claimed_le(raws, (n - 1) as nat);
            assert(claimed@.contains(n as u64) <==> is_claimed(raws, raws.len(), n as nat));
        }
        if !has_number(claimed, n as u64) {
            return n;
        }
        proof {
            lemma_claimed_bound(raws, n as nat);
            lemma_claimed_le(raws, n as nat);
        }
    }
}

proof fn lemma_next_free_unique(raws: Seq<Seq<char>>, c: nat, k: nat)
    requires
        is_next_free(raws, c, k),
    ensures
        next_free(raws, c) == k,
{
    let m = next_free(raws, c);
    assert(is_next_free(raws, c, m));
    if m < k {
        assert(is_claimed(raws, raws.len(), m));
    } else if k < m {
        assert(is_claimed(raws, raws.len(), k));
    }
}

proof fn lemma_own_count_split(raws: Seq<Seq<char>>, n: nat, m: nat)
    requires
        n <= m <= raws.len(),
    ensures
        own_count(raws, n) <= own_count(raws, m),
        own_count(raws, m) - own_count(raws, n) <= m - n,
    decreases m,
{
    if n < m {
        lemma_own_count_split(raws, n, (m - 1) as nat);
    }
}

/// Extract acceptance criteria from a parsed design doc into a structured format.
///
/// Criteria with `AC-N:` prefixes keep their explicit IDs; others get sequential
/// IDs assigned, skipping any numbers already claimed by explicit IDs. The time of
/// the extraction is the caller's. There must be fewer criteria than 32 bits count.
pub fn extract_criteria(doc: &DesignDoc, source_filename: &str, extracted_at: &str) -> (r:
    CriteriaFile)
    requires
        doc@.acceptance_criteria.len() < u32::MAX,
    ensures
        r.source_doc@ == source_filename@,
        r.extracted_at@ == extracted_at@,
        r.criteria@.len() == doc@.acceptance_criteria.len(),
        forall|i: int|
            0 <= i < r.criteria@.len() ==> {
                &&& (#[trigger] r.criteria@[i]).id@ == assigned_id(doc@.acceptance_criteria, i)
                &&& r.criteria@[i].text@ == own_text(doc@.acceptance_criteria[i])
                &&& r.criteria@[i].criterion_type@ == "functional"@
            },
{
    let raws = &doc.acceptance_criteria;
    let ghost views = text::strs(raws@);
    assert(views == doc@.acceptance_criteria);
    let claimed = claimed_numbers(raws);
    let mut last: u32 = 0;
    let mut criteria: Vec<Criterion> = Vec::new();
    let mut i: usize = 0;
    while i < raws.len()
        invariant
            i <= raws@.len(),
            views == text::strs(raws@),
            views.len() == raws@.len(),
            raws@.len() < u32::MAX,
            lists_claimed(claimed@, views),
            last == last_number(views, i as nat),
            free_up_to(views, last as nat) + own_count(views, i as nat) == i,
            criteria@.len() == i,
            forall|k: int|
                0 <= k < i ==> {
                    &&& (#[trigger] criteria@[k]).id@ == assigned_id(views, k)
                    &&& criteria@[k].text@ == own_text(views[k])
                    &&& criteria@[k].criterion_type@ == "functional"@
                },
        decreases raws@.len() - i,
    {
        let (parsed, remaining) = parse_criterion_id(raws[i].as_str());
        assert(views[i as int] == raws@[i as int]@);
        proof {
            lemma_own_id(views[i as int]);
        }
        let id = if !parsed.as_str().is_empty() {
            parsed
        } else {
            let ghost autos = free_up_to(views, last as nat);
            proof {
                lemma_own_count_split(views, i as nat + 1, views.len());
                assert(own_count(views, i as nat + 1) == own_count(views, i as nat));
            }
            let ghost before = last;
            last = find_free(&claimed, last, Ghost(views), Ghost(autos));
            proof {
                lemma_next_free_unique(views, before as nat, last as nat);
            }
            id_with_number(last)
        };
        criteria.push(
            Criterion { id, text: remaining, criterion_type: own("functional") },
        );
        i = i + 1;
    }
    CriteriaFile { source_doc: own(source_filename), extracted_at: own(extracted_at), criteria }
}

// ---------------------------------------------------------------------------
// Laws
// ---------------------------------------------------------------------------

/// There is always a number that is free.
proof fn lemma_next_free_exists(raws: Seq<Seq<char>>, c: nat)
    ensures
        is_next_free(raws, c, next_free(raws, c)),
{
    lemma_free_beyond(raws, c, c + own_count(raws, raws.len()) + 1);
}

/// Among more numbers than criteria with identifiers of their own, one is free.
proof fn lemma_free_beyond(raws: Seq<Seq<char>>, c: nat, m: nat)
    requires
        m > c + own_count(raws, raws.len()),
    ensures
        is_next_free(raws, c, next_free(raws, c)),
{
    if !exists|k: nat| is_next_free(raws, c, k) {
        lemma_all_claimed(raws, c, m);
        lemma_claimed_bound(raws, m);
    }
}

proof fn lemma_all_claimed(raws: Seq<Seq<char>>, c: nat, m: nat)
    requires
        m >= c,
        !exists|k: nat| is_next_free(raws, c, k),
    ensures
        claimed_up_to(raws, m) >= m - c,
        forall|j: nat| c < j <= m ==> #[trigger] is_claimed(raws, raws.len(), j),
    decreases m - c,
{
    if m > c {
        lemma_all_claimed(raws, c, (m - 1) as nat);
        if !is_claimed(raws, raws.len(), m) {
            assert(is_next_free(raws, c, m));
        }
    }
}

proof fn lemma_last_number_grows(raws: Seq<Seq<char>>, n: nat, m: nat)
    requires
        n <= m <= raws.len(),
    ensures
        last_number(raws, n) <= last_number(raws, m),
    decreases m,
{
    if n < m {
        lemma_last_number_grows(raws, n, (m - 1) as nat);
        if own_id(raws[m - 1]).len() == 0 {
            lemma_next_free_exists(raws, last_number(raws, (m - 1) as nat));
        }
    }
}

/// An assigned identifier never has a number that another criterion claims, so it is never
/// one that another criterion gives itself.
pub proof fn law_assigned_ids_avoid_explicit_ones(raws: Seq<Seq<char>>, i: int, j: int)
    requires
        0 <= i < raws.len(),
        0 <= j < raws.len(),
        own_id(raws[i]).len() == 0,
        own_id(raws[j]).len() > 0,
    ensures
        own_number(raws[j]) != Some(last_number(raws, i as nat + 1)),
        assigned_id(raws, i) != assigned_id(raws, j),
{
    let number = last_number(raws, i as nat + 1);
    lemma_next_free_exists(raws, last_number(raws, i as nat));
    lemma_own_id(raws[j]);
    assert(!is_claimed(raws, raws.len(), number));
    assert(own_number(raws[j]) != Some(number));
    if assigned_id(raws, i) == assigned_id(raws, j) {
        let n = "AC-"@.len() as int;
        assert(numbered_id(number).skip(n) =~= text::dec(number));
        assert(own_id(raws[j]).skip(n) =~= marked_digits(text::trim(raws[j])));
        text::lemma_dec_value(number);
    }
}

/// Two criteria without identifiers of their own are given different ones, in the
/// order in which they stand.
pub proof fn law_assigned_ids_increase(raws: Seq<Seq<char>>, i: int, j: int)
    requires
        0 <= i < j < raws.len(),
        own_id(raws[i]).len() == 0,
        own_id(raws[j]).len() == 0,
    ensures
        last_number(raws, i as nat + 1) < last_number(raws, j as nat + 1),
        assigned_id(raws, i) != assigned_id(raws, j),
{
    lemma_last_number_grows(raws, i as nat + 1, j as nat);
    lemma_next_free_exists(raws, last_number(raws, j as nat));
    lemma_numbered_id_injective(
        last_number(raws, i as nat + 1),
        last_number(raws, j as nat + 1),
    );
}

/// A criterion that gives itself an identifier keeps it, and its text is what stands behind it;
/// the case of the letters does not matter. Any other text stays as it is, without the white
/// space around it.
pub proof fn law_explicit_ids_are_kept(n: nat, rest: Seq<char>, raw: Seq<char>)
    requires
        rest.len() > 0 && !text::is_ws(rest[0]) && !text::is_ws(rest.last()),
    ensures
        own_id("AC-"@ + text::dec(n) + ": "@ + rest) == "AC-"@ + text::dec(n),
        own_text("AC-"@ + text::dec(n) + ": "@ + rest) == rest,
        own_id("ac-"@ + text::dec(n) + ": "@ + rest) == "AC-"@ + text::dec(n),
        own_text("ac-"@ + text::dec(n) + ": "@ + rest) == rest,
        own_id(raw).len() == 0 ==> own_text(raw) == text::trim(raw),
        !text::has_prefix(text::ascii_lower(text::trim(raw)), "ac-"@) ==> own_id(raw).len() == 0,
{
    reveal_strlit("AC-");
    reveal_strlit("ac-");
    reveal_strlit(": ");
    lemma_marked("AC-"@, n, rest);
    lemma_marked("ac-"@, n, rest);
    let t = text::trim(raw);
    if is_marked(t) {
        assert(text::ascii_lower(t).take(3) =~= "ac-"@);
    }
}

proof fn lemma_marked(marker: Seq<char>, n: nat, rest: Seq<char>)
    requires
        marker == "AC-"@ || marker == "ac-"@,
        rest.len() > 0 && !text::is_ws(rest[0]) && !text::is_ws(rest.last()),
    ensures
        own_id(marker + text::dec(n) + ": "@ + rest) == "AC-"@ + text::dec(n),
        own_text(marker + text::dec(n) + ": "@ + rest) == rest,
{
    reveal_strlit("AC-");
    reveal_strlit("ac-");
    reveal_strlit(": ");
    let d = text::dec(n);
    text::lemma_dec_value(n);
    let raw = marker + d + ": "@ + rest;
    assert(raw[0] == marker[0]);
    assert(raw.last() == rest.last());
    assert(text::trim_start(raw) == raw);
    assert(text::trim(raw) == raw);
    let tail = raw.skip(3);
    assert(tail =~= d + ": "@ + rest);
    text::lemma_find_char(tail, ':');
    let at = text::find_char(tail, ':') as int;
    assert(tail[d.len() as int] == ':');
    assert(at == d.len()) by {
        if at < d.len() {
            assert(tail[at] == d[at]);
            assert(text::is_digit(d[at]));
        }
    }
    assert(tail.take(at) =~= d);
    let behind = raw.skip(d.len() as int + 4);
    assert(behind =~= seq![' '] + rest);
    assert(behind.drop_first() =~= rest);
    assert(text::trim_start(rest) == rest);
    assert(text::trim_start(behind) == rest);
    assert(text::trim_end(rest) == rest);
    assert(raw[1] == marker[1] && raw[2] == marker[2]);
    assert(is_marked(raw));
}

/// Where no criterion gives itself an identifier, they are numbered from one on.
pub proof fn law_plain_criteria_are_counted(raws: Seq<Seq<char>>, i: int)
    requires
        0 <= i < raws.len(),
        forall|k: int| 0 <= k < raws.len() ==> own_id(#[trigger] raws[k]).len() == 0,
    ensures
        assigned_id(raws, i) == "AC-"@ + text::dec((i + 1) as nat),
{
    lemma_counted(raws, (i + 1) as nat);
}

proof fn lemma_counted(raws: Seq<Seq<char>>, n: nat)
    requires
        n <= raws.len(),
        forall|k: int| 0 <= k < raws.len() ==> own_id(#[trigger] raws[k]).len() == 0,
    ensures
        last_number(raws, n) == n,
    decreases n,
{
    if n > 0 {
        lemma_counted(raws, (n - 1) as nat);
        assert(own_id(raws[n - 1]).len() == 0);
        assert forall|j: nat| !#[trigger] is_claimed(raws, raws.len(), j) by {
            if is_claimed(raws, raws.len(), j) {
                let k = choose|k: int|
                    0 <= k < raws.len() && own_number(#[trigger] raws[k]) == Some(j);
                lemma_own_id(raws[k]);
            }
        }
        assert(is_next_free(raws, (n - 1) as nat, n));
        lemma_next_free_unique(raws, (n - 1) as nat, n);
    }
}

/// A criterion that gives itself an identifier is listed under it.
pub proof fn law_explicit_ids_are_listed(raws: Seq<Seq<char>>, i: int)
    requires
        0 <= i < raws.len(),
    ensures
        own_id(raws[i]).len() > 0 ==> assigned_id(raws, i) == own_id(raws[i]),
        text::has_prefix(assigned_id(raws, i), "AC-"@),
{
    broadcast use text::lemma_prefix_of_sum;

}

/// The criteria file holds every criterion of the document in its order, and where it is from.
pub proof fn law_every_criterion_is_extracted(
    doc: &DesignDoc,
    source: &str,
    extracted_at: &str,
    r: CriteriaFile,
    i: int,
)
    requires
        call_ensures(extract_criteria, (doc, source, extracted_at), r),
        0 <= i < doc@.acceptance_criteria.len(),
    ensures
        r.source_doc@ == source@,
        r.extracted_at@ == extracted_at@,
        r.criteria@.len() == doc@.acceptance_criteria.len(),
        r.criteria@[i].text@ == own_text(doc@.acceptance_criteria[i]),
        r.criteria@[i].id@ == assigned_id(doc@.acceptance_criteria, i),
        r.criteria@[i].criterion_type@ == "functional"@,
        (forall|k: int|
            0 <= k < doc@.acceptance_criteria.len() ==> own_id(
                #[trigger] doc@.acceptance_criteria[k],
            ).len() == 0) ==> r.criteria@[i].id@ == "AC-"@ + text::dec((i + 1) as nat)
            && r.criteria@[i].text@ == text::trim(doc@.acceptance_criteria[i]),
{
    let raws = doc@.acceptance_criteria;
    assert(r.criteria@[i].id@ == assigned_id(raws, i));
    if forall|k: int| 0 <= k < raws.len() ==> own_id(#[trigger] raws[k]).len() == 0 {
        law_plain_criteria_are_counted(raws, i);
        assert(own_id(raws[i]).len() == 0);
        law_explicit_ids_are_kept(0, seq!['a'], raws[i]);
    }
}

} // verus!
