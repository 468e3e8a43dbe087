//! Text primitives.
//!
//! A string is modelled as the sequence of its characters. Every function here
//! states its result over that model, so that the rest of the library can speak
//! of lines, prefixes, trimming and decimal numbers without looking at bytes.

use vstd::prelude::*;
use vstd::slice::slice_subrange;

verus! {

// ---------------------------------------------------------------------------
// Conversions between strings and character vectors
// ---------------------------------------------------------------------------

/// `String::push` appends one character to the end of the string.
pub assume_specification[ std::string::String::push ](s: &mut std::string::String, c: char)
    ensures
        final(s)@ == old(s)@.push(c),
;

/// The views of a list of strings.
pub open spec fn strs(v: Seq<String>) -> Seq<Seq<char>> {
    Seq::new(v.len(), |i: int| v[i]@)
}

/// The view of an optional string.
pub open spec fn opt_str(o: Option<String>) -> Option<Seq<char>> {
    match o {
        Some(s) => Some(s@),
        None => None,
    }
}

/// The view of an optional borrowed string.
pub open spec fn opt_view(o: Option<&str>) -> Option<Seq<char>> {
    match o {
        Some(s) => Some(s@),
        None => None,
    }
}

/// Pushing a string on a list pushes its view on the list of views.
pub proof fn lemma_strs_push(v: Seq<String>, s: String)
    ensures
        strs(v.push(s)) == strs(v).push(s@),
{
    assert(strs(v.push(s)) =~= strs(v).push(s@));
}

/// Adds a copy of a string to a list.
pub fn push_name(list: &mut Vec<String>, name: &str)
    ensures
        strs(final(list)@) == strs(old(list)@).push(name@),
{
    let ghost before = list@;
    list.push(own(name));
    proof {
        lemma_strs_push(before, list@.last());
    }
}

/// The characters of a string, one by one.
pub fn chars_of(s: &str) -> (r: Vec<char>)
    ensures
        r@ == s@,
{
    let mut out: Vec<char> = Vec::new();
    for c in it: s.chars()
        invariant
            out@ == s@.take(it.index()),
            it.seq() == s@,
    {
        out.push(c);
    }
    out
}

/// The string made of the given characters.
pub fn string_of(v: &[char]) -> (r: String)
    ensures
        r@ == v@,
{
    let mut out = String::new();
    let mut i: usize = 0;
    while i < v.len()
        invariant
            i <= v.len(),
            out@ == v@.take(i as int),
        decreases v.len() - i,
    {
        out.push(v[i]);
        i = i + 1;
        assert(v@.take(i as int) =~= v@.take(i - 1).push(v@[i - 1]));
    }
    assert(v@.take(v@.len() as int) =~= v@);
    out
}

/// An owned copy of a string.
pub fn own(s: &str) -> (r: String)
    ensures
        r@ == s@,
{
    s.to_owned()
}

/// An owned copy of an optional string.
pub fn own_opt(s: Option<&str>) -> (r: Option<String>)
    ensures
        opt_str(r) == opt_view(s),
{
    match s {
        Some(v) => Some(own(v)),
        None => None,
    }
}

/// A copy of a list of strings.
pub fn clone_strings(v: &Vec<String>) -> (r: Vec<String>)
    ensures
        strs(r@) == strs(v@),
{
    let mut out: Vec<String> = Vec::new();
    let mut i: usize = 0;
    while i < v.len()
        invariant
            i <= v.len(),
            strs(out@) == strs(v@).take(i as int),
        decreases v.len() - i,
    {
        let ghost before = out@;
        out.push(own(v[i].as_str()));
        proof {
            lemma_strs_push(before, out@.last());
            assert(strs(v@).take(i + 1) =~= strs(v@).take(i as int).push(v@[i as int]@));
        }
        i = i + 1;
    }
    assert(strs(v@).take(v@.len() as int) =~= strs(v@));
    out
}

// ---------------------------------------------------------------------------
// Comparison
// ---------------------------------------------------------------------------

/// Whether two character slices hold the same characters.
pub fn eq_chars(a: &[char], b: &[char]) -> (r: bool)
    ensures
        r == (a@ == b@),
{
    if a.len() != b.len() {
        return false;
    }
    let mut i: usize = 0;
    while i < a.len()
        invariant
            a.len() == b.len(),
            i <= a.len(),
            forall|k: int| 0 <= k < i ==> a@[k] == b@[k],
        decreases a.len() - i,
    {
        if a[i] != b[i] {
            return false;
        }
        i = i + 1;
    }
    assert(a@ =~= b@);
    true
}

/// Whether two strings are equal.
pub fn eq_str(a: &str, b: &str) -> (r: bool)
    ensures
        r == (a@ == b@),
{
    eq_chars(chars_of(a).as_slice(), chars_of(b).as_slice())
}

/// Whether an optional string is present and equal to the given one.
pub fn opt_is(a: &Option<String>, b: &str) -> (r: bool)
    ensures
        r == (opt_str(*a) == Some(b@)),
{
    match a {
        Some(s) => eq_str(s.as_str(), b),
        None => false,
    }
}

/// Lexicographic order by code point, the order in which strings sort.
pub open spec fn lex_le(a: Seq<char>, b: Seq<char>) -> bool
    decreases a.len(),
{
    if a.len() == 0 {
        true
    } else if b.len() == 0 {
        false
    } else if a[0] != b[0] {
        (a[0] as u32) < (b[0] as u32)
    } else {
        lex_le(a.drop_first(), b.drop_first())
    }
}

/// The order is total.
pub proof fn lemma_lex_total(a: Seq<char>, b: Seq<char>)
    ensures
        lex_le(a, b) || lex_le(b, a),
    decreases a.len(),
{
    if a.len() > 0 && b.len() > 0 {
        if a[0] == b[0] {
            lemma_lex_total(a.drop_first(), b.drop_first());
        } else if a[0] as u32 == b[0] as u32 {
            vstd::utf8::char_u32_cast(a[0], a[0] as u32);
            vstd::utf8::char_u32_cast(b[0], b[0] as u32);
        }
    }
}

/// The order is antisymmetric.
pub proof fn lemma_lex_antisymmetric(a: Seq<char>, b: Seq<char>)
    requires
        lex_le(a, b),
        lex_le(b, a),
    ensures
        a == b,
    decreases a.len(),
{
    if a.len() > 0 && b.len() > 0 {
        lemma_lex_antisymmetric(a.drop_first(), b.drop_first());
        assert(a =~= seq![a[0]] + a.drop_first());
        assert(b =~= seq![b[0]] + b.drop_first());
    } else {
        assert(a =~= b);
    }
}

/// The order is transitive.
pub proof fn lemma_lex_transitive(a: Seq<char>, b: Seq<char>, c: Seq<char>)
    requires
        lex_le(a, b),
        lex_le(b, c),
    ensures
        lex_le(a, c),
    decreases a.len(),
{
    if a.len() > 0 && a[0] == b[0] && b[0] == c[0] {
        lemma_lex_transitive(a.drop_first(), b.drop_first(), c.drop_first());
    }
}

/// Whether `a` sorts before `b` or is equal to it.
pub fn str_le(a: &str, b: &str) -> (r: bool)
    ensures
        r == lex_le(a@, b@),
{
    let x = chars_of(a);
    let y = chars_of(b);
    let mut i: usize = 0;
    assert(x@.skip(0) =~= x@);
    assert(y@.skip(0) =~= y@);
    loop
        invariant
            i <= x.len(),
            i <= y.len(),
            x@ == a@,
            y@ == b@,
            lex_le(a@, b@) == lex_le(x@.skip(i as int), y@.skip(i as int)),
        decreases x.len() - i,
    {
        if i == x.len() {
            return true;
        }
        if i == y.len() {
            return false;
        }
        if x[i] != y[i] {
            return (x[i] as u32) < (y[i] as u32);
        }
        assert(x@.skip(i as int).drop_first() =~= x@.skip(i + 1));
        assert(y@.skip(i as int).drop_first() =~= y@.skip(i + 1));
        i = i + 1;
    }
}

// ---------------------------------------------------------------------------
// Character classes and case
// ---------------------------------------------------------------------------

/// The characters with the Unicode property `White_Space`.
pub open spec fn is_ws(c: char) -> bool {
    let n = c as u32;
    ||| 0x09 <= n <= 0x0d
    ||| n == 0x20
    ||| n == 0x85
    ||| n == 0xa0
    ||| n == 0x1680
    ||| 0x2000 <= n <= 0x200a
    ||| n == 0x2028
    ||| n == 0x2029
    ||| n == 0x202f
    ||| n == 0x205f
    ||| n == 0x3000
}

/// Whether a character is white space.
pub fn is_whitespace(c: char) -> (r: bool)
    ensures
        r == is_ws(c),
{
    let n: u32 = c as u32;
    (0x09 <= n && n <= 0x0d) || n == 0x20 || n == 0x85 || n == 0xa0 || n == 0x1680
        || (0x2000 <= n && n <= 0x200a) || n == 0x2028 || n == 0x2029 || n == 0x202f || n == 0x205f
        || n == 0x3000
}

/// The ASCII digits.
pub open spec fn is_digit(c: char) -> bool {
    '0' as u32 <= c as u32 <= '9' as u32
}

/// Whether a character is an ASCII digit.
pub fn is_ascii_digit(c: char) -> (r: bool)
    ensures
        r == is_digit(c),
{
    let n: u32 = c as u32;
    0x30 <= n && n <= 0x39
}

/// A character with the ASCII letters mapped to lower case.
pub open spec fn lower_char(c: char) -> char {
    if 0x41 <= c as u32 <= 0x5a {
        ((c as u32) + 32) as char
    } else {
        c
    }
}

/// A string with the ASCII letters mapped to lower case.
pub open spec fn ascii_lower(s: Seq<char>) -> Seq<char> {
    Seq::new(s.len(), |i: int| lower_char(s[i]))
}

/// Maps the ASCII letters of one character to lower case.
pub fn to_lower_char(c: char) -> (r: char)
    ensures
        r == lower_char(c),
{
    let n: u32 = c as u32;
    if 0x41 <= n && n <= 0x5a {
        ((n + 32) as u8) as char
    } else {
        c
    }
}

/// Maps the ASCII letters of a string to lower case and keeps all else.
pub fn to_ascii_lower(s: &str) -> (r: String)
    ensures
        r@ == ascii_lower(s@),
{
    let cs = chars_of(s);
    let mut out = String::new();
    let mut i: usize = 0;
    while i < cs.len()
        invariant
            i <= cs.len(),
            cs@ == s@,
            out@ == ascii_lower(s@).take(i as int),
        decreases cs.len() - i,
    {
        out.push(to_lower_char(cs[i]));
        i = i + 1;
        assert(ascii_lower(s@).take(i as int) =~= ascii_lower(s@).take(i - 1).push(
            lower_char(s@[i - 1]),
        ));
    }
    assert(ascii_lower(s@).take(s@.len() as int) =~= ascii_lower(s@));
    out
}

/// The characters below U+0080.
pub open spec fn all_ascii(s: Seq<char>) -> bool {
    forall|i: int| 0 <= i < s.len() ==> (#[trigger] s[i] as u32) < 128
}

/// What `str::to_lowercase` makes of a string.
pub uninterp spec fn lowercase(s: Seq<char>) -> Seq<char>;

/// `str::to_lowercase` maps a string to lower case by the Unicode rules. Its
/// result depends on the string alone; of a string of ASCII characters it maps
/// the letters `A` to `Z` and keeps all else.
pub assume_specification[ str::to_lowercase ](s: &str) -> (r: std::string::String)
    ensures
        r@ == lowercase(s@),
        all_ascii(s@) ==> r@ == ascii_lower(s@),
;

/// Whether a character has the Unicode property of a letter or a number, as
/// `char::is_alphanumeric` decides it.
pub uninterp spec fn alphanumeric(c: char) -> bool;

/// The ASCII letters and digits.
pub open spec fn ascii_alphanumeric(c: char) -> bool {
    let n = c as u32;
    0x30 <= n <= 0x39 || 0x41 <= n <= 0x5a || 0x61 <= n <= 0x7a
}

/// `char::is_alphanumeric` depends on the character alone; of the ASCII
/// characters it accepts the letters and the digits.
pub assume_specification[ char::is_alphanumeric ](c: char) -> (r: bool)
    ensures
        r == alphanumeric(c),
        (c as u32) < 128 ==> r == ascii_alphanumeric(c),
;

/// A string in lower case: of ASCII characters the letters `A` to `Z` are mapped,
/// any other string is mapped as `str::to_lowercase` does it.
pub open spec fn lower(s: Seq<char>) -> Seq<char> {
    if all_ascii(s) {
        ascii_lower(s)
    } else {
        lowercase(s)
    }
}

/// Maps a string to lower case.
pub fn to_lower(s: &str) -> (r: String)
    ensures
        r@ == lower(s@),
{
    s.to_lowercase()
}

/// Letters and digits: of the ASCII characters those, of the others as
/// `char::is_alphanumeric` decides.
pub open spec fn is_alnum(c: char) -> bool {
    if (c as u32) < 128 {
        ascii_alphanumeric(c)
    } else {
        alphanumeric(c)
    }
}

/// Whether a character is a letter or a digit.
pub fn is_letter_or_digit(c: char) -> (r: bool)
    ensures
        r == is_alnum(c),
{
    c.is_alphanumeric()
}

// ---------------------------------------------------------------------------
// Trimming
// ---------------------------------------------------------------------------

/// A string without its leading white space.
pub open spec fn trim_start(s: Seq<char>) -> Seq<char>
    decreases s.len(),
{
    if s.len() > 0 && is_ws(s[0]) {
        trim_start(s.drop_first())
    } else {
        s
    }
}

/// A string without its trailing white space.
pub open spec fn trim_end(s: Seq<char>) -> Seq<char>
    decreases s.len(),
{
    if s.len() > 0 && is_ws(s.last()) {
        trim_end(s.drop_last())
    } else {
        s
    }
}

/// A string without leading and trailing white space.
pub open spec fn trim(s: Seq<char>) -> Seq<char> {
    trim_end(trim_start(s))
}

/// Drops the leading white space of a character slice.
pub fn trim_start_chars(s: &[char]) -> (r: &[char])
    ensures
        r@ == trim_start(s@),
{
    let mut i: usize = 0;
    assert(s@.skip(0) =~= s@);
    while i < s.len() && is_whitespace(s[i])
        invariant
            i <= s.len(),
            trim_start(s@) == trim_start(s@.skip(i as int)),
        decreases s.len() - i,
    {
        assert(s@.skip(i as int).drop_first() =~= s@.skip(i + 1));
        i = i + 1;
    }
    assert(s@.skip(i as int) =~= s@.subrange(i as int, s@.len() as int));
    slice_subrange(s, i, s.len())
}

/// Drops the trailing white space of a character slice.
pub fn trim_end_chars(s: &[char]) -> (r: &[char])
    ensures
        r@ == trim_end(s@),
{
    let mut n: usize = s.len();
    assert(s@.take(n as int) =~= s@);
    while n > 0 && is_whitespace(s[n - 1])
        invariant
            n <= s.len(),
            trim_end(s@) == trim_end(s@.take(n as int)),
        decreases n,
    {
        assert(s@.take(n as int).drop_last() =~= s@.take(n - 1));
        n = n - 1;
    }
    assert(s@.take(n as int) =~= s@.subrange(0, n as int));
    slice_subrange(s, 0, n)
}

/// Drops the leading and trailing white space of a string.
pub fn trim_str(s: &str) -> (r: String)
    ensures
        r@ == trim(s@),
{
    let cs = chars_of(s);
    string_of(trim_end_chars(trim_start_chars(cs.as_slice())))
}

/// What is left after trimming has no white space at either end.
pub proof fn lemma_trimmed_ends(s: Seq<char>)
    ensures
        trim(s).len() > 0 ==> !is_ws(trim(s)[0]) && !is_ws(trim(s).last()),
{
    lemma_trim_start_first(s);
    lemma_trim_end_last(trim_start(s));
    lemma_trim_end_first(trim_start(s));
}

proof fn lemma_trim_start_first(s: Seq<char>)
    ensures
        trim_start(s).len() > 0 ==> !is_ws(trim_start(s)[0]),
    decreases s.len(),
{
    if s.len() > 0 && is_ws(s[0]) {
        lemma_trim_start_first(s.drop_first());
    }
}

proof fn lemma_trim_end_last(s: Seq<char>)
    ensures
        trim_end(s).len() > 0 ==> !is_ws(trim_end(s).last()),
    decreases s.len(),
{
    if s.len() > 0 && is_ws(s.last()) {
        lemma_trim_end_last(s.drop_last());
    }
}

proof fn lemma_trim_end_first(s: Seq<char>)
    ensures
        trim_end(s).len() <= s.len(),
        trim_end(s).len() > 0 ==> trim_end(s)[0] == s[0],
    decreases s.len(),
{
    if s.len() > 0 && is_ws(s.last()) {
        lemma_trim_end_first(s.drop_last());
    }
}

proof fn lemma_trim_start_lower(s: Seq<char>)
    ensures
        ascii_lower(trim_start(s)) == trim_start(ascii_lower(s)),
    decreases s.len(),
{
    if s.len() > 0 && is_ws(s[0]) {
        lemma_trim_start_lower(s.drop_first());
        assert(ascii_lower(s).drop_first() =~= ascii_lower(s.drop_first()));
    }
}

proof fn lemma_trim_end_lower(s: Seq<char>)
    ensures
        ascii_lower(trim_end(s)) == trim_end(ascii_lower(s)),
    decreases s.len(),
{
    if s.len() > 0 && is_ws(s.last()) {
        lemma_trim_end_lower(s.drop_last());
        assert(ascii_lower(s).drop_last() =~= ascii_lower(s.drop_last()));
    }
}

/// Texts that differ in the case of ASCII letters alone are the same in lower case, white
/// space at their ends aside.
pub proof fn lemma_lower_of_trimmed(a: Seq<char>, b: Seq<char>)
    requires
        ascii_lower(a) == ascii_lower(b),
        all_ascii(trim(a)),
    ensures
        lower(trim(a)) == lower(trim(b)),
{
    lemma_trim_start_lower(a);
    lemma_trim_start_lower(b);
    lemma_trim_end_lower(trim_start(a));
    lemma_trim_end_lower(trim_start(b));
    let x = trim(a);
    let y = trim(b);
    assert(ascii_lower(x) == ascii_lower(y));
    assert(ascii_lower(x).len() == ascii_lower(y).len());
    assert forall|i: int| 0 <= i < y.len() implies (#[trigger] y[i] as u32) < 128 by {
        assert(ascii_lower(x)[i] == ascii_lower(y)[i]);
        assert((x[i] as u32) < 128);
    }
}

/// Where the first whitespace stands, or the length where there is none.
pub open spec fn word_end(s: Seq<char>) -> nat
    decreases s.len(),
{
    if s.len() == 0 || is_ws(s[0]) {
        0
    } else {
        1 + word_end(s.drop_first())
    }
}

/// The first word of a string, or the string itself where it holds no word.
pub open spec fn first_word(s: Seq<char>) -> Seq<char> {
    let t = trim_start(s);
    if t.len() == 0 {
        s
    } else {
        t.take(word_end(t) as int)
    }
}

/// Finds the first word of a string.
pub fn first_word_of(s: &str) -> (r: String)
    ensures
        r@ == first_word(s@),
{
    let cs = chars_of(s);
    let t = trim_start_chars(cs.as_slice());
    if t.len() == 0 {
        return own(s);
    }
    let mut i: usize = 0;
    assert(t@.skip(0) =~= t@);
    while i < t.len() && !is_whitespace(t[i])
        invariant
            i <= t.len(),
            word_end(t@) == i + word_end(t@.skip(i as int)),
        decreases t.len() - i,
    {
        assert(t@.skip(i as int).drop_first() =~= t@.skip(i + 1));
        i = i + 1;
    }
    assert(word_end(t@.skip(i as int)) == 0);
    assert(t@.subrange(0, i as int) =~= t@.take(i as int));
    string_of(slice_subrange(t, 0, i))
}

// ---------------------------------------------------------------------------
// Prefixes, suffixes and searching
// ---------------------------------------------------------------------------

/// Whether `p` is how `s` begins.
pub open spec fn has_prefix(s: Seq<char>, p: Seq<char>) -> bool {
    p.len() <= s.len() && s.take(p.len() as int) == p
}

/// Whether `p` is how `s` ends.
pub open spec fn has_suffix(s: Seq<char>, p: Seq<char>) -> bool {
    p.len() <= s.len() && s.skip(s.len() - p.len()) == p
}

/// Whether `p` stands in `s` from position `i` on.
pub open spec fn occurs_at(s: Seq<char>, p: Seq<char>, i: int) -> bool {
    0 <= i && i + p.len() <= s.len() && s.subrange(i, i + p.len()) == p
}

/// Whether `p` stands anywhere in `s`.
pub open spec fn contains(s: Seq<char>, p: Seq<char>) -> bool {
    exists|i: int| occurs_at(s, p, i)
}

/// Whether `p` stands in `s` from position `i` on.
pub fn occurs_at_chars(s: &[char], p: &[char], i: usize) -> (r: bool)
    ensures
        r == occurs_at(s@, p@, i as int),
{
    if i > s.len() || p.len() > s.len() - i {
        return false;
    }
    eq_chars(slice_subrange(s, i, i + p.len()), p)
}

/// Whether a string begins with another.
pub fn starts_with(s: &str, p: &str) -> (r: bool)
    ensures
        r == has_prefix(s@, p@),
{
    let a = chars_of(s);
    let b = chars_of(p);
    if b.len() > a.len() {
        return false;
    }
    assert(a@.subrange(0, b@.len() as int) =~= a@.take(b@.len() as int));
    eq_chars(slice_subrange(a.as_slice(), 0, b.len()), b.as_slice())
}

/// Whether a string ends with another.
pub fn ends_with(s: &str, p: &str) -> (r: bool)
    ensures
        r == has_suffix(s@, p@),
{
    let a = chars_of(s);
    let b = chars_of(p);
    if b.len() > a.len() {
        return false;
    }
    assert(a@.subrange(a@.len() - b@.len(), a@.len() as int) =~= a@.skip(a@.len() - b@.len()));
    eq_chars(slice_subrange(a.as_slice(), a.len() - b.len(), a.len()), b.as_slice())
}

/// Whether a string holds another.
pub fn contains_str(s: &str, p: &str) -> (r: bool)
    ensures
        r == contains(s@, p@),
{
    let a = chars_of(s);
    let b = chars_of(p);
    if b.len() > a.len() {
        return false;
    }
    let last: usize = a.len() - b.len();
    let mut i: usize = 0;
    loop
        invariant
            i <= last,
            last == a.len() - b.len(),
            a@ == s@,
            b@ == p@,
            forall|k: int| 0 <= k < i ==> !occurs_at(s@, p@, k),
        decreases last - i,
    {
        if occurs_at_chars(a.as_slice(), b.as_slice(), i) {
            return true;
        }
        if i == last {
            return false;
        }
        i = i + 1;
    }
}

/// The string after a prefix, where it has that prefix.
pub open spec fn after_prefix(s: Seq<char>, p: Seq<char>) -> Option<Seq<char>> {
    if has_prefix(s, p) {
        Some(s.skip(p.len() as int))
    } else {
        None
    }
}

/// Takes a prefix off a string.
pub fn strip_prefix(s: &str, p: &str) -> (r: Option<String>)
    ensures
        opt_str(r) == after_prefix(s@, p@),
{
    if starts_with(s, p) {
        let a = chars_of(s);
        let n: usize = chars_of(p).len();
        assert(a@.subrange(n as int, a@.len() as int) =~= a@.skip(n as int));
        Some(string_of(slice_subrange(a.as_slice(), n, a.len())))
    } else {
        None
    }
}

/// The string before a suffix, where it has that suffix.
pub open spec fn before_suffix(s: Seq<char>, p: Seq<char>) -> Option<Seq<char>> {
    if has_suffix(s, p) {
        Some(s.take(s.len() - p.len()))
    } else {
        None
    }
}

/// Takes a suffix off a string.
pub fn strip_suffix(s: &str, p: &str) -> (r: Option<String>)
    ensures
        opt_str(r) == before_suffix(s@, p@),
{
    if ends_with(s, p) {
        let a = chars_of(s);
        let n: usize = a.len() - chars_of(p).len();
        assert(a@.subrange(0, n as int) =~= a@.take(n as int));
        Some(string_of(slice_subrange(a.as_slice(), 0, n)))
    } else {
        None
    }
}

/// The position of the first `c`, or the length where there is none.
pub open spec fn find_char(s: Seq<char>, c: char) -> nat
    decreases s.len(),
{
    if s.len() == 0 || s[0] == c {
        0
    } else {
        1 + find_char(s.drop_first(), c)
    }
}

/// What `find_char` finds: the first position that holds the character.
pub proof fn lemma_find_char(s: Seq<char>, c: char)
    ensures
        find_char(s, c) <= s.len(),
        find_char(s, c) < s.len() ==> s[find_char(s, c) as int] == c,
        forall|k: int| 0 <= k < find_char(s, c) ==> s[k] != c,
    decreases s.len(),
{
    if s.len() > 0 && s[0] != c {
        lemma_find_char(s.drop_first(), c);
        assert forall|k: int| 0 <= k < find_char(s, c) implies s[k] != c by {
            if k > 0 {
                assert(s[k] == s.drop_first()[k - 1]);
            }
        }
    }
}

/// Searches a character slice for its first `c`.
pub fn find_char_in(s: &[char], c: char) -> (r: usize)
    ensures
        r == find_char(s@, c),
        r <= s.len(),
{
    let mut i: usize = 0;
    assert(s@.skip(0) =~= s@);
    while i < s.len() && s[i] != c
        invariant
            i <= s.len(),
            find_char(s@, c) == i + find_char(s@.skip(i as int), c),
        decreases s.len() - i,
    {
        assert(s@.skip(i as int).drop_first() =~= s@.skip(i + 1));
        i = i + 1;
    }
    i
}

/// The position of the last `c`, or -1 where there is none.
pub open spec fn rfind_char(s: Seq<char>, c: char) -> int
    decreases s.len(),
{
    if s.len() == 0 {
        -1
    } else if s.last() == c {
        s.len() - 1
    } else {
        rfind_char(s.drop_last(), c)
    }
}

/// Searches a character slice for its last `c`.
pub fn rfind_char_in(s: &[char], c: char) -> (r: Option<usize>)
    ensures
        match r {
            Some(i) => i < s.len() && s@[i as int] == c && rfind_char(s@, c) == i,
            None => rfind_char(s@, c) == -1,
        },
{
    let mut n: usize = s.len();
    assert(s@.take(n as int) =~= s@);
    while n > 0
        invariant
            n <= s.len(),
            rfind_char(s@, c) == rfind_char(s@.take(n as int), c),
        decreases n,
    {
        if s[n - 1] == c {
            return Some(n - 1);
        }
        assert(s@.take(n as int).drop_last() =~= s@.take(n - 1));
        n = n - 1;
    }
    None
}

/// The last position up to `i` where `p` stands in `s`, or -1.
pub open spec fn rfind_from(s: Seq<char>, p: Seq<char>, i: int) -> int
    decreases i + 1,
{
    if i < 0 {
        -1
    } else if occurs_at(s, p, i) {
        i
    } else {
        rfind_from(s, p, i - 1)
    }
}

/// What stands behind the last `p` in `s`, or all of `s` where it holds no `p`.
pub open spec fn after_last(s: Seq<char>, p: Seq<char>) -> Seq<char> {
    let i = rfind_from(s, p, s.len() - p.len());
    if i < 0 {
        s
    } else {
        s.skip(i + p.len())
    }
}

/// What stands behind the last `p` in `s`, or all of `s` where it holds no `p`.
pub fn after_last_str(s: &str, p: &str) -> (r: String)
    ensures
        r@ == after_last(s@, p@),
{
    let a = chars_of(s);
    let b = chars_of(p);
    if b.len() > a.len() {
        return own(s);
    }
    let mut i: usize = a.len() - b.len();
    loop
        invariant
            a@ == s@,
            b@ == p@,
            b.len() <= a.len(),
            i <= a.len() - b.len(),
            rfind_from(s@, p@, i as int) == rfind_from(s@, p@, a.len() - b.len()),
        decreases i,
    {
        if occurs_at_chars(a.as_slice(), b.as_slice(), i) {
            assert(a@.subrange(i + b.len(), a@.len() as int) =~= a@.skip(i + b.len()));
            return string_of(slice_subrange(a.as_slice(), i + b.len(), a.len()));
        }
        if i == 0 {
            assert(rfind_from(s@, p@, -1) == -1);
            return own(s);
        }
        i = i - 1;
    }
}

/// Whether a list of names holds a name.
pub open spec fn has_name(names: Seq<Seq<char>>, name: Seq<char>) -> bool {
    exists|i: int| 0 <= i < names.len() && #[trigger] names[i] == name
}

/// Looks for a name in a list of names.
pub fn contains_name(names: &Vec<String>, name: &str) -> (r: bool)
    ensures
        r == has_name(strs(names@), name@),
{
    let ghost views = strs(names@);
    let mut i: usize = 0;
    while i < names.len()
        invariant
            i <= names@.len(),
            views == strs(names@),
            forall|k: int| 0 <= k < i ==> #[trigger] views[k] != name@,
        decreases names@.len() - i,
    {
        if eq_str(names[i].as_str(), name) {
            assert(views[i as int] == name@);
            return true;
        }
        i = i + 1;
    }
    false
}

/// The views of a list of fixed words.
pub open spec fn words(v: Seq<&'static str>) -> Seq<Seq<char>> {
    Seq::new(v.len(), |i: int| v[i]@)
}

/// Owned copies of fixed words.
pub fn own_words(v: &Vec<&'static str>) -> (r: Vec<String>)
    ensures
        strs(r@) == words(v@),
{
    let mut out: Vec<String> = Vec::new();
    let mut i: usize = 0;
    while i < v.len()
        invariant
            i <= v@.len(),
            strs(out@) == words(v@).take(i as int),
        decreases v@.len() - i,
    {
        let ghost before = out@;
        out.push(own(v[i]));
        proof {
            lemma_strs_push(before, out@.last());
            assert(words(v@).take(i + 1) =~= words(v@).take(i as int).push(v@[i as int]@));
        }
        i = i + 1;
    }
    assert(words(v@).take(v@.len() as int) =~= words(v@));
    out
}

/// The parts of a string between the separators. There is always at least one.
pub open spec fn split(s: Seq<char>, c: char) -> Seq<Seq<char>>
    decreases s.len(),
{
    let i = find_char(s, c);
    if i >= s.len() {
        seq![s]
    } else {
        seq![s.take(i as int)] + split(s.skip(i as int + 1), c)
    }
}

/// Splits a string at the separators.
pub fn split_str(s: &str, c: char) -> (r: Vec<String>)
    ensures
        strs(r@) == split(s@, c),
{
    let cs = chars_of(s);
    let mut out: Vec<String> = Vec::new();
    let mut start: usize = 0;
    assert(cs@.skip(0) =~= cs@);
    assert(strs(out@) =~= Seq::<Seq<char>>::empty());
    assert(strs(out@) + split(cs@, c) =~= split(cs@, c));
    loop
        invariant_except_break
            start <= cs@.len(),
            cs@ == s@,
            split(s@, c) == strs(out@) + split(cs@.skip(start as int), c),
        ensures
            split(s@, c) == strs(out@),
        decreases cs@.len() - start,
    {
        let rest = slice_subrange(cs.as_slice(), start, cs.len());
        assert(rest@ =~= cs@.skip(start as int));
        let i = find_char_in(rest, c);
        let ghost before = out@;
        if i >= rest.len() {
            let part = string_of(rest);
            out.push(part);
            proof {
                lemma_strs_push(before, part);
                assert(strs(before) + seq![part@] =~= strs(before).push(part@));
            }
            break;
        }
        let part = string_of(slice_subrange(rest, 0, i));
        out.push(part);
        proof {
            lemma_strs_push(before, part);
            assert(part@ =~= rest@.take(i as int));
            assert(rest@.skip(i + 1) =~= cs@.skip(start + i + 1));
            let tail = split(cs@.skip(start + i + 1), c);
            assert(strs(before) + (seq![part@] + tail) =~= strs(out@) + tail);
        }
        start = start + i + 1;
    }
    out
}

// ---------------------------------------------------------------------------
// Lines
// ---------------------------------------------------------------------------

/// A line without the carriage return that ends it.
pub open spec fn strip_cr(s: Seq<char>) -> Seq<char> {
    if s.len() > 0 && s.last() == '\r' {
        s.drop_last()
    } else {
        s
    }
}

/// The lines of a text. A line ends at a line feed, which may have a carriage
/// return before it; the last line needs no line feed.
pub open spec fn lines(s: Seq<char>) -> Seq<Seq<char>>
    decreases s.len(),
{
    if s.len() == 0 {
        Seq::empty()
    } else {
        let i = find_char(s, '\n');
        if i >= s.len() {
            seq![s]
        } else {
            seq![strip_cr(s.take(i as int))] + lines(s.skip(i as int + 1))
        }
    }
}

/// Splits a text into its lines.
pub fn lines_of(s: &str) -> (r: Vec<String>)
    ensures
        strs(r@) == lines(s@),
{
    let cs = chars_of(s);
    let mut out: Vec<String> = Vec::new();
    let mut start: usize = 0;
    assert(s@.skip(0) =~= s@);
    assert(strs(out@) + lines(s@) =~= lines(s@));
    while start < cs.len()
        invariant
            start <= cs.len(),
            cs@ == s@,
            strs(out@) + lines(s@.skip(start as int)) == lines(s@),
        decreases cs.len() - start,
    {
        let rest = slice_subrange(cs.as_slice(), start, cs.len());
        let i: usize = find_char_in(rest, '\n');
        let ghost before = out@;
        let ghost tail = s@.skip(start as int);
        assert(rest@ =~= tail);
        if i == rest.len() {
            out.push(string_of(rest));
            start = cs.len();
            proof {
                lemma_strs_push(before, out@.last());
                assert(s@.skip(start as int) =~= Seq::<char>::empty());
                assert(strs(out@) + lines(s@.skip(start as int)) =~= strs(before) + seq![tail]);
            }
        } else {
            let mut n: usize = i;
            if i > 0 && rest[i - 1] == '\r' {
                n = i - 1;
            }
            out.push(string_of(slice_subrange(rest, 0, n)));
            proof {
                lemma_strs_push(before, out@.last());
                assert(out@.last()@ =~= strip_cr(tail.take(i as int)));
                assert(tail.skip(i + 1) =~= s@.skip(start + i + 1));
                assert(strs(out@) + lines(tail.skip(i + 1)) =~= strs(before) + (seq![
                    strip_cr(tail.take(i as int)),
                ] + lines(tail.skip(i + 1))));
            }
            start = start + i + 1;
        }
    }
    assert(s@.skip(start as int) =~= Seq::<char>::empty());
    assert(strs(out@) + lines(s@.skip(start as int)) =~= strs(out@));
    out
}

/// Whether a text is made of whole lines: it is empty or ends with a line feed.
pub open spec fn whole_lines(t: Seq<char>) -> bool {
    t.len() > 0 ==> t.last() == '\n'
}

/// Adding a line to a text of whole lines adds it to the lines.
pub proof fn lemma_lines_push(t: Seq<char>, l: Seq<char>)
    requires
        whole_lines(t),
        !l.contains('\n'),
        l.len() > 0 ==> l.last() != '\r',
    ensures
        lines(t + l + seq!['\n']) == lines(t).push(l),
    decreases t.len(),
{
    let s = t + l + seq!['\n'];
    lemma_find_char(s, '\n');
    let i = find_char(s, '\n') as int;
    if t.len() == 0 {
        assert(s[l.len() as int] == '\n');
        if i < l.len() {
            assert(l[i] == '\n');
            assert(l.contains('\n'));
        }
        assert(i == l.len());
        assert(s.take(i) =~= l);
        assert(s.skip(i + 1) =~= Seq::<char>::empty());
        assert(lines(s.skip(i + 1)) =~= Seq::<Seq<char>>::empty());
        assert(lines(s) =~= seq![l]);
        assert(lines(t).push(l) =~= seq![l]);
    } else {
        lemma_find_char(t, '\n');
        let j = find_char(t, '\n') as int;
        if j >= t.len() {
            assert(t[t.len() - 1] == '\n');
        }
        assert(s[j] == t[j]);
        if i < j {
            assert(s[i] == t[i]);
        }
        assert(i == j);
        assert(s.take(i) =~= t.take(i));
        let u = t.skip(i + 1);
        if u.len() > 0 {
            assert(u.last() == t.last());
        }
        assert(s.skip(i + 1) =~= u + l + seq!['\n']);
        lemma_lines_push(u, l);
        assert(lines(s) =~= lines(t).push(l));
    }
}

/// What is added behind whole lines, up to the end of the text, is a line too.
pub proof fn lemma_lines_push_last(t: Seq<char>, l: Seq<char>)
    requires
        whole_lines(t),
        !l.contains('\n'),
        l.len() > 0,
    ensures
        lines(t + l) == lines(t).push(l),
    decreases t.len(),
{
    let s = t + l;
    lemma_find_char(s, '\n');
    let i = find_char(s, '\n') as int;
    if t.len() == 0 {
        assert(s =~= l);
        if i < s.len() {
            assert(l.contains(l[i]));
        }
        assert(lines(t).push(l) =~= seq![l]);
    } else {
        lemma_find_char(t, '\n');
        let j = find_char(t, '\n') as int;
        if j >= t.len() {
            assert(t[t.len() - 1] == '\n');
        }
        assert(s[j] == t[j]);
        if i < j {
            assert(s[i] == t[i]);
        }
        assert(i == j);
        assert(s.take(i) =~= t.take(i));
        let u = t.skip(i + 1);
        if u.len() > 0 {
            assert(u.last() == t.last());
        }
        assert(s.skip(i + 1) =~= u + l);
        lemma_lines_push_last(u, l);
        assert(lines(s) =~= lines(t).push(l));
    }
}

/// White space at the end makes no difference to what is left when it is trimmed.
proof fn lemma_trim_drop_last(s: Seq<char>)
    requires
        s.len() > 0,
        is_ws(s.last()),
    ensures
        trim(s.drop_last()) == trim(s),
    decreases s.len(),
{
    if is_ws(s[0]) {
        if s.len() == 1 {
            assert(s.drop_first() =~= s.drop_last());
            assert(s.drop_last().len() == 0);
        } else {
            assert(s.drop_last().drop_first() =~= s.drop_first().drop_last());
            lemma_trim_drop_last(s.drop_first());
        }
    }
}

/// A line end behind a text keeps its lines, up to white space at their ends; at most it
/// adds an empty one.
pub proof fn lemma_lines_line_end(s: Seq<char>)
    ensures
        lines(s).len() <= lines(s + seq!['\n']).len() <= lines(s).len() + 1,
        forall|k: int|
            0 <= k < lines(s).len() ==> trim(#[trigger] lines(s)[k]) == trim(
                lines(s + seq!['\n'])[k],
            ),
        forall|k: int|
            lines(s).len() <= k < lines(s + seq!['\n']).len() ==> (#[trigger] lines(
                s + seq!['\n'],
            )[k]).len() == 0,
    decreases s.len(),
{
    let t = s + seq!['\n'];
    lemma_find_char(s, '\n');
    lemma_find_char(t, '\n');
    let i = find_char(s, '\n') as int;
    let j = find_char(t, '\n') as int;
    assert(t[s.len() as int] == '\n');
    if i < s.len() {
        assert(t[i] == s[i]);
    }
    if j < s.len() {
        assert(t[j] == s[j]);
    }
    assert(i == j);
    assert(t.take(j) =~= s.take(i));
    if i >= s.len() {
        assert(t.skip(j + 1) =~= Seq::<char>::empty());
        assert(lines(t.skip(j + 1)) =~= Seq::<Seq<char>>::empty());
        assert(s.take(i) =~= s);
        if s.len() > 0 && s.last() == '\r' {
            lemma_trim_drop_last(s);
        }
    } else {
        let u = s.skip(i + 1);
        assert(t.skip(j + 1) =~= u + seq!['\n']);
        lemma_lines_line_end(u);
        let first = seq![strip_cr(s.take(i))];
        assert forall|k: int| 0 <= k < lines(s).len() implies trim(#[trigger] lines(s)[k]) == trim(
            lines(t)[k],
        ) by {
            if k > 0 {
                assert(lines(s)[k] == lines(u)[k - 1]);
                assert(lines(t)[k] == lines(u + seq!['\n'])[k - 1]);
            }
        }
        assert forall|k: int| lines(s).len() <= k < lines(t).len() implies (#[trigger] lines(
            t,
        )[k]).len() == 0 by {
            assert(lines(t)[k] == lines(u + seq!['\n'])[k - 1]);
        }
    }
}

// ---------------------------------------------------------------------------
// Replacing and joining
// ---------------------------------------------------------------------------

/// A string with every occurrence of `from`, taken from the left, replaced.
pub open spec fn replace(s: Seq<char>, from: Seq<char>, to: Seq<char>) -> Seq<char>
    decreases s.len(),
{
    if from.len() == 0 || s.len() < from.len() {
        s
    } else if occurs_at(s, from, 0) {
        to + replace(s.skip(from.len() as int), from, to)
    } else {
        seq![s[0]] + replace(s.drop_first(), from, to)
    }
}

/// Replaces every occurrence of `from` in a string.
pub fn replace_str(s: &str, from: &str, to: &str) -> (r: String)
    requires
        from@.len() > 0,
    ensures
        r@ == replace(s@, from@, to@),
{
    let cs = chars_of(s);
    let pat = chars_of(from);
    let mut out = String::new();
    let mut i: usize = 0;
    assert(s@.skip(0) =~= s@);
    assert(out@ + replace(s@, from@, to@) =~= replace(s@, from@, to@));
    while i < cs.len()
        invariant
            i <= cs.len(),
            cs@ == s@,
            pat@ == from@,
            pat@.len() > 0,
            out@ + replace(s@.skip(i as int), from@, to@) == replace(s@, from@, to@),
        decreases cs.len() - i,
    {
        let ghost tail = s@.skip(i as int);
        let ghost before = out@;
        if occurs_at_chars(cs.as_slice(), pat.as_slice(), i) {
            proof {
                assert(tail.subrange(0, pat@.len() as int) =~= s@.subrange(
                    i as int,
                    i + pat@.len(),
                ));
                assert(tail.skip(pat@.len() as int) =~= s@.skip(i + pat@.len()));
            }
            out.append(to);
            i = i + pat.len();
            assert(out@ + replace(s@.skip(i as int), from@, to@) =~= before + (to@ + replace(
                s@.skip(i as int),
                from@,
                to@,
            )));
        } else {
            proof {
                if occurs_at(tail, from@, 0) {
                    assert(tail.subrange(0, pat@.len() as int) =~= s@.subrange(
                        i as int,
                        i + pat@.len(),
                    ));
                }
                assert(tail.drop_first() =~= s@.skip(i + 1));
                if tail.len() < from@.len() {
                    lemma_replace_short(s@.skip(i + 1), from@, to@);
                    assert(tail =~= seq![tail[0]] + s@.skip(i + 1));
                }
            }
            out.push(cs[i]);
            i = i + 1;
            assert(out@ + replace(s@.skip(i as int), from@, to@) =~= before + (seq![tail[0]]
                + replace(s@.skip(i as int), from@, to@)));
        }
    }
    assert(s@.skip(i as int) =~= Seq::<char>::empty());
    assert(out@ + replace(s@.skip(i as int), from@, to@) =~= out@);
    out
}

proof fn lemma_replace_short(s: Seq<char>, from: Seq<char>, to: Seq<char>)
    requires
        s.len() < from.len(),
    ensures
        replace(s, from, to) == s,
{
}

/// The parts with a separator between each two.
pub open spec fn join(parts: Seq<Seq<char>>, sep: Seq<char>) -> Seq<char>
    decreases parts.len(),
{
    if parts.len() == 0 {
        Seq::empty()
    } else if parts.len() == 1 {
        parts[0]
    } else {
        join(parts.drop_last(), sep) + sep + parts.last()
    }
}

/// Joins strings with a separator.
pub fn join_strs(parts: &Vec<String>, sep: &str) -> (r: String)
    ensures
        r@ == join(strs(parts@), sep@),
{
    let mut out = String::new();
    let mut i: usize = 0;
    while i < parts.len()
        invariant
            i <= parts.len(),
            out@ == join(strs(parts@).take(i as int), sep@),
        decreases parts.len() - i,
    {
        let ghost head = strs(parts@).take(i + 1);
        assert(head.drop_last() =~= strs(parts@).take(i as int));
        assert(head.last() == parts@[i as int]@);
        if i > 0 {
            out.append(sep);
        } else {
            assert(Seq::<char>::empty() + parts@[0]@ =~= parts@[0]@);
        }
        out.append(parts[i].as_str());
        i = i + 1;
    }
    assert(strs(parts@).take(parts@.len() as int) =~= strs(parts@));
    out
}

/// Whether `p` and `s` from `i` on are the same from the `j`-th character on.
pub open spec fn agrees(s: Seq<char>, p: Seq<char>, i: int, j: nat) -> bool
    decreases p.len() - j,
{
    j >= p.len() || (s[i + j] == p[j as int] && agrees(s, p, i, j + 1))
}

/// Whether `p` stands in `s` from one of the first `n` positions on.
pub open spec fn begins_before(s: Seq<char>, p: Seq<char>, n: nat) -> bool
    decreases n,
{
    n > 0 && (agrees(s, p, n - 1, 0) || begins_before(s, p, (n - 1) as nat))
}

proof fn lemma_agrees(s: Seq<char>, p: Seq<char>, i: int, j: nat)
    requires
        occurs_at(s, p, i),
    ensures
        agrees(s, p, i, j),
    decreases p.len() - j,
{
    if j < p.len() {
        assert(s.subrange(i, i + p.len())[j as int] == p[j as int]);
        lemma_agrees(s, p, i, j + 1);
    }
}

proof fn lemma_begins_before(s: Seq<char>, p: Seq<char>, i: int, n: nat)
    requires
        occurs_at(s, p, i),
        i < n,
    ensures
        begins_before(s, p, n),
    decreases n,
{
    if i == n - 1 {
        lemma_agrees(s, p, i, 0);
    } else {
        lemma_begins_before(s, p, i, (n - 1) as nat);
    }
}

/// A string that begins at no position does not stand in another.
pub proof fn lemma_absent(s: Seq<char>, p: Seq<char>)
    requires
        p.len() <= s.len() ==> !begins_before(s, p, (s.len() - p.len() + 1) as nat),
    ensures
        !contains(s, p),
{
    if contains(s, p) {
        let i = choose|i: int| occurs_at(s, p, i);
        lemma_begins_before(s, p, i, (s.len() - p.len() + 1) as nat);
    }
}

/// Whether a string stands in one of a list.
pub open spec fn in_one(parts: Seq<Seq<char>>, p: Seq<char>) -> bool {
    exists|k: int| 0 <= k < parts.len() && contains(#[trigger] parts[k], p)
}

/// A string stands where it stood, whatever is put before and behind.
pub proof fn lemma_contains_between(before: Seq<char>, s: Seq<char>, behind: Seq<char>, p: Seq<char>)
    requires
        contains(s, p),
    ensures
        contains(before + s + behind, p),
{
    let i = choose|i: int| occurs_at(s, p, i);
    let all = before + s + behind;
    assert(all.subrange(before.len() + i, before.len() + i + p.len()) =~= s.subrange(
        i,
        i + p.len(),
    ));
    assert(occurs_at(all, p, before.len() + i));
}

/// What stands in a part stands in the joined text.
pub proof fn lemma_part_in_joined(parts: Seq<Seq<char>>, sep: Seq<char>, p: Seq<char>)
    requires
        in_one(parts, p),
    ensures
        contains(join(parts, sep), p),
    decreases parts.len(),
{
    let all = join(parts, sep);
    let k = choose|k: int| 0 <= k < parts.len() && contains(#[trigger] parts[k], p);
    if parts.len() > 1 {
        let head = parts.drop_last();
        let joined = join(head, sep);
        if k < parts.len() - 1 {
            assert(contains(head[k], p));
            lemma_part_in_joined(head, sep, p);
            lemma_contains_between(Seq::empty(), joined, sep + parts.last(), p);
            assert(Seq::<char>::empty() + joined + (sep + parts.last()) =~= all);
        } else {
            lemma_contains_between(joined + sep, parts.last(), Seq::empty(), p);
            assert(joined + sep + parts.last() + Seq::<char>::empty() =~= all);
        }
    }
}

/// Without the separator in it, a string stands in a joined text only where it stands in a
/// part.
pub proof fn lemma_in_joined(parts: Seq<Seq<char>>, c: char, p: Seq<char>)
    requires
        !p.contains(c),
        p.len() > 0,
        contains(join(parts, seq![c]), p),
    ensures
        in_one(parts, p),
    decreases parts.len(),
{
    let all = join(parts, seq![c]);
    let i = choose|i: int| occurs_at(all, p, i);
    if parts.len() == 1 {
        assert(contains(parts[0], p));
    } else if parts.len() > 1 {
        let head = parts.drop_last();
        let joined = join(head, seq![c]);
        let n = joined.len() as int;
        if i + p.len() <= n {
            assert(joined.subrange(i, i + p.len()) =~= all.subrange(i, i + p.len()));
            assert(occurs_at(joined, p, i));
            lemma_in_joined(head, c, p);
            let k = choose|k: int| 0 <= k < head.len() && contains(#[trigger] head[k], p);
            assert(contains(parts[k], p));
        } else if i > n {
            assert(parts.last().subrange(i - n - 1, i - n - 1 + p.len()) =~= all.subrange(
                i,
                i + p.len(),
            ));
            assert(occurs_at(parts.last(), p, i - n - 1));
            assert(contains(parts[parts.len() - 1], p));
        } else {
            assert(all.subrange(i, i + p.len())[n - i] == c);
            assert(p[n - i] == c);
        }
    }
}

// ---------------------------------------------------------------------------
// Numbers
// ---------------------------------------------------------------------------

/// The character of a decimal digit.
pub open spec fn digit_char(d: nat) -> char {
    (48 + d) as char
}

/// The decimal digits of a number.
pub open spec fn dec(n: nat) -> Seq<char>
    decreases n,
{
    if n < 10 {
        seq![digit_char(n)]
    } else {
        dec(n / 10).push(digit_char(n % 10))
    }
}

/// The decimal form of an integer, with a minus sign where it is negative.
pub open spec fn dec_int(i: int) -> Seq<char> {
    if i < 0 {
        seq!['-'] + dec((-i) as nat)
    } else {
        dec(i as nat)
    }
}

/// Appends the decimal digits of a number.
pub fn push_dec(out: &mut String, n: u64)
    ensures
        final(out)@ == old(out)@ + dec(n as nat),
    decreases n,
{
    let ghost start = out@;
    if n >= 10 {
        push_dec(out, n / 10);
    }
    let d: u8 = 48 + (n % 10) as u8;
    out.push(d as char);
    assert(out@ =~= start + dec(n as nat));
}

/// The decimal digits of a number.
pub fn dec_u64(n: u64) -> (r: String)
    ensures
        r@ == dec(n as nat),
{
    let mut out = String::new();
    push_dec(&mut out, n);
    assert(Seq::<char>::empty() + dec(n as nat) =~= dec(n as nat));
    out
}

/// The decimal form of an integer.
pub fn dec_i64(i: i64) -> (r: String)
    ensures
        r@ == dec_int(i as int),
{
    let mut out = String::new();
    if i < 0 {
        out.push('-');
        let magnitude: u64 = (-(i + 1)) as u64 + 1;
        push_dec(&mut out, magnitude);
        assert(out@ =~= seq!['-'] + dec(magnitude as nat));
    } else {
        push_dec(&mut out, i as u64);
        assert(out@ =~= dec(i as nat));
    }
    out
}

/// The value of a string of decimal digits.
pub open spec fn digits_value(s: Seq<char>) -> nat
    decreases s.len(),
{
    if s.len() == 0 {
        0
    } else {
        10 * digits_value(s.drop_last()) + ((s.last() as u32) - 48) as nat
    }
}

/// Whether all characters are ASCII digits.
pub open spec fn all_digits(s: Seq<char>) -> bool {
    forall|i: int| 0 <= i < s.len() ==> is_digit(#[trigger] s[i])
}

/// A number without its plus sign.
pub open spec fn strip_plus(s: Seq<char>) -> Seq<char> {
    if s.len() > 0 && s[0] == '+' {
        s.drop_first()
    } else {
        s
    }
}

/// The number that a string writes out: an optional plus sign and then decimal
/// digits, at least one, whose value is at most `max`.
pub open spec fn parse_dec(s: Seq<char>, max: nat) -> Option<nat> {
    let t = strip_plus(s);
    if t.len() > 0 && all_digits(t) && digits_value(t) <= max {
        Some(digits_value(t))
    } else {
        None
    }
}

/// More digits make no smaller number.
proof fn lemma_digits_value_monotone(s: Seq<char>, k: int)
    requires
        0 <= k <= s.len(),
        all_digits(s),
    ensures
        digits_value(s.take(k)) <= digits_value(s),
    decreases s.len(),
{
    if k == s.len() {
        assert(s.take(k) =~= s);
    } else {
        assert(s.drop_last().take(k) =~= s.take(k));
        lemma_digits_value_monotone(s.drop_last(), k);
    }
}

/// The value of the digits that print a number is that number.
pub proof fn lemma_dec_value(n: nat)
    ensures
        all_digits(dec(n)),
        dec(n).len() > 0,
        digits_value(dec(n)) == n,
    decreases n,
{
    reveal_with_fuel(digits_value, 2);
    if n < 10 {
        assert(seq![digit_char(n)].drop_last() =~= Seq::<char>::empty());
    } else {
        lemma_dec_value(n / 10);
        assert(dec(n).drop_last() =~= dec(n / 10));
        assert forall|i: int| 0 <= i < dec(n).len() implies is_digit(#[trigger] dec(n)[i]) by {
            if i < dec(n / 10).len() {
                assert(dec(n)[i] == dec(n / 10)[i]);
            }
        }
    }
}

/// Different numbers have different decimal forms.
pub proof fn lemma_dec_injective(a: nat, b: nat)
    requires
        dec(a) == dec(b),
    ensures
        a == b,
{
    lemma_dec_value(a);
    lemma_dec_value(b);
}

/// Reads a decimal number.
pub fn parse_u64(s: &str) -> (r: Option<u64>)
    ensures
        r is Some <==> parse_dec(s@, u64::MAX as nat) is Some,
        r matches Some(v) ==> parse_dec(s@, u64::MAX as nat) == Some(v as nat),
{
    let cs = chars_of(s);
    let mut start: usize = 0;
    if cs.len() > 0 && cs[0] == '+' {
        start = 1;
    }
    let t = slice_subrange(cs.as_slice(), start, cs.len());
    assert(t@ =~= strip_plus(s@));
    if t.len() == 0 {
        return None;
    }
    let mut value: u64 = 0;
    let mut i: usize = 0;
    assert(t@.take(0) =~= Seq::<char>::empty());
    while i < t.len()
        invariant
            i <= t.len(),
            t@ == strip_plus(s@),
            forall|k: int| 0 <= k < i ==> is_digit(#[trigger] t@[k]),
            value == digits_value(t@.take(i as int)),
        decreases t.len() - i,
    {
        if !is_ascii_digit(t[i]) {
            return None;
        }
        let d: u64 = ((t[i] as u32) - 48) as u64;
        assert(t@.take(i + 1).drop_last() =~= t@.take(i as int));
        if value > (u64::MAX - d) / 10 {
            proof {
                assert(digits_value(t@.take(i + 1)) == 10 * value + d);
                if all_digits(t@) {
                    lemma_digits_value_monotone(t@, i + 1);
                }
            }
            return None;
        }
        value = value * 10 + d;
        i = i + 1;
    }
    assert(t@.take(t@.len() as int) =~= t@);
    Some(value)
}

// ---------------------------------------------------------------------------
// Padding
// ---------------------------------------------------------------------------

/// `n` times the same character.
pub open spec fn repeated(c: char, n: nat) -> Seq<char> {
    Seq::new(n, |i: int| c)
}

/// `n` times the same character.
pub fn repeat_char(c: char, n: usize) -> (r: String)
    ensures
        r@ == repeated(c, n as nat),
{
    let mut out = String::new();
    let mut i: usize = 0;
    while i < n
        invariant
            i <= n,
            out@ == repeated(c, i as nat),
        decreases n - i,
    {
        out.push(c);
        i = i + 1;
        assert(repeated(c, i as nat) =~= repeated(c, (i - 1) as nat).push(c));
    }
    out
}

/// The blanks that fill a string up to a width.
pub open spec fn fill(len: nat, width: nat) -> Seq<char> {
    if len < width {
        repeated(' ', (width - len) as nat)
    } else {
        Seq::empty()
    }
}

/// A string filled with blanks behind it, up to a width in characters.
pub open spec fn pad(s: Seq<char>, width: nat) -> Seq<char> {
    s + fill(s.len(), width)
}

/// A string filled with blanks before it, up to a width in characters.
pub open spec fn pad_before(s: Seq<char>, width: nat) -> Seq<char> {
    fill(s.len(), width) + s
}

/// Fills a string with blanks behind it, up to a width in characters.
pub fn pad_str(s: &str, width: usize) -> (r: String)
    ensures
        r@ == pad(s@, width as nat),
{
    let n: usize = chars_of(s).len();
    let mut out = own(s);
    if n < width {
        out.append(repeat_char(' ', width - n).as_str());
    } else {
        assert(s@ + Seq::<char>::empty() =~= s@);
    }
    out
}

/// Fills a string with blanks before it, up to a width in characters.
pub fn pad_before_str(s: &str, width: usize) -> (r: String)
    ensures
        r@ == pad_before(s@, width as nat),
{
    let n: usize = chars_of(s).len();
    if n < width {
        let mut out = repeat_char(' ', width - n);
        out.append(s);
        out
    } else {
        assert(Seq::<char>::empty() + s@ =~= s@);
        own(s)
    }
}

// ---------------------------------------------------------------------------
// Lengths in bytes
// ---------------------------------------------------------------------------

/// The number of bytes that a character takes in UTF-8.
pub open spec fn utf8_width(c: char) -> nat {
    let n = c as u32;
    if n < 0x80 {
        1
    } else if n < 0x800 {
        2
    } else if n < 0x10000 {
        3
    } else {
        4
    }
}

/// The number of bytes that a string takes in UTF-8.
pub open spec fn utf8_len(s: Seq<char>) -> nat
    decreases s.len(),
{
    if s.len() == 0 {
        0
    } else {
        utf8_len(s.drop_last()) + utf8_width(s.last())
    }
}

/// The number of characters in the longest beginning of `s` that takes at most
/// `limit` bytes.
pub open spec fn fitting(s: Seq<char>, limit: nat) -> nat
    decreases s.len(),
{
    if utf8_len(s) <= limit || s.len() == 0 {
        s.len()
    } else {
        fitting(s.drop_last(), limit)
    }
}

/// The number of bytes that a character takes in UTF-8.
pub fn width_of(c: char) -> (r: usize)
    ensures
        r == utf8_width(c),
        1 <= r <= 4,
{
    let n: u32 = c as u32;
    if n < 0x80 {
        1
    } else if n < 0x800 {
        2
    } else if n < 0x10000 {
        3
    } else {
        4
    }
}

/// Every beginning of a string takes no more bytes than the string.
pub proof fn lemma_utf8_len_take(s: Seq<char>, k: int)
    requires
        0 <= k <= s.len(),
    ensures
        utf8_len(s.take(k)) <= utf8_len(s),
        k < s.len() ==> utf8_len(s.take(k)) < utf8_len(s),
    decreases s.len(),
{
    if k == s.len() {
        assert(s.take(k) =~= s);
    } else {
        assert(s.drop_last().take(k) =~= s.take(k));
        lemma_utf8_len_take(s.drop_last(), k);
    }
}

/// A string of ASCII characters takes one byte for each.
pub proof fn lemma_utf8_len_ascii(s: Seq<char>)
    requires
        all_ascii(s),
    ensures
        utf8_len(s) == s.len(),
    decreases s.len(),
{
    if s.len() > 0 {
        assert((s.last() as u32) < 128);
        lemma_utf8_len_ascii(s.drop_last());
    }
}

/// What `fitting` finds.
pub proof fn lemma_fitting(s: Seq<char>, limit: nat)
    ensures
        fitting(s, limit) <= s.len(),
        utf8_len(s.take(fitting(s, limit) as int)) <= limit,
        utf8_len(s) > limit ==> fitting(s, limit) < s.len() && utf8_len(
            s.take(fitting(s, limit) as int + 1),
        ) > limit,
    decreases s.len(),
{
    if utf8_len(s) <= limit || s.len() == 0 {
        assert(s.take(s.len() as int) =~= s);
    } else {
        let t = s.drop_last();
        lemma_fitting(t, limit);
        let k = fitting(t, limit) as int;
        assert(t.take(k) =~= s.take(k));
        if utf8_len(t) > limit {
            assert(t.take(k + 1) =~= s.take(k + 1));
        } else {
            assert(s.take(k + 1) =~= s);
        }
    }
}

/// A beginning that fits and cannot be made longer is the longest.
pub proof fn lemma_fitting_is(s: Seq<char>, limit: nat, k: int)
    requires
        0 <= k <= s.len(),
        utf8_len(s.take(k)) <= limit,
        k < s.len() ==> utf8_len(s.take(k + 1)) > limit,
    ensures
        fitting(s, limit) == k,
    decreases s.len(),
{
    if k == s.len() {
        assert(s.take(k) =~= s);
    } else {
        lemma_utf8_len_take(s, k + 1);
        assert(s.drop_last().take(k) =~= s.take(k));
        if k + 1 <= s.drop_last().len() {
            assert(s.drop_last().take(k + 1) =~= s.take(k + 1));
        }
        lemma_fitting_is(s.drop_last(), limit, k);
    }
}

/// How many characters of a slice fit into `limit` bytes, and how many bytes
/// those take.
pub fn fit_bytes(s: &[char], limit: usize) -> (r: (usize, usize))
    ensures
        r.0 == fitting(s@, limit as nat),
        r.0 <= s.len(),
        r.1 == utf8_len(s@.take(r.0 as int)),
        r.1 <= limit,
{
    let mut n: usize = 0;
    let mut used: usize = 0;
    assert(s@.take(0) =~= Seq::<char>::empty());
    while n < s.len() && width_of(s[n]) <= limit - used
        invariant
            n <= s.len(),
            used <= limit,
            used == utf8_len(s@.take(n as int)),
        decreases s.len() - n,
    {
        assert(s@.take(n + 1).drop_last() =~= s@.take(n as int));
        used = used + width_of(s[n]);
        n = n + 1;
    }
    proof {
        if n < s.len() {
            assert(s@.take(n + 1).drop_last() =~= s@.take(n as int));
        }
        lemma_fitting_is(s@, limit as nat, n as int);
    }
    (n, used)
}

// ---------------------------------------------------------------------------
// What a text holds
// ---------------------------------------------------------------------------

/// A text holds itself.
pub broadcast proof fn lemma_contains_self(s: Seq<char>)
    ensures
        #[trigger] contains(s, s),
{
    assert(s.subrange(0, s.len() as int) =~= s);
    assert(occurs_at(s, s, 0));
}

/// What stands in the first of two texts stands in both together.
pub broadcast proof fn lemma_contains_first(a: Seq<char>, b: Seq<char>, p: Seq<char>)
    requires
        contains(a, p),
    ensures
        #[trigger] contains(a + b, p),
{
    lemma_contains_between(Seq::empty(), a, b, p);
    assert(Seq::<char>::empty() + a + b =~= a + b);
}

/// What stands in the second of two texts stands in both together.
pub broadcast proof fn lemma_contains_second(a: Seq<char>, b: Seq<char>, p: Seq<char>)
    requires
        contains(b, p),
    ensures
        #[trigger] contains(a + b, p),
{
    lemma_contains_between(a, b, Seq::empty(), p);
    assert(a + b + Seq::<char>::empty() =~= a + b);
}

/// A text begins with what it was put behind.
pub broadcast proof fn lemma_prefix_of_sum(a: Seq<char>, b: Seq<char>)
    ensures
        #[trigger] has_prefix(a + b, a),
{
    assert((a + b).take(a.len() as int) =~= a);
}

/// A text ends with what was put behind it.
pub broadcast proof fn lemma_suffix_of_sum(a: Seq<char>, b: Seq<char>)
    ensures
        #[trigger] has_suffix(a + b, b),
{
    assert((a + b).skip(a.len() as int) =~= b);
}

/// Each of some parts stands in the text that they are joined to.
pub proof fn law_joined_text_holds_its_parts(parts: Seq<Seq<char>>, sep: Seq<char>, k: int)
    requires
        0 <= k < parts.len(),
    ensures
        contains(join(parts, sep), parts[k]),
{
    lemma_contains_self(parts[k]);
    assert(contains(parts[k], parts[k]));
    lemma_part_in_joined(parts, sep, parts[k]);
}

/// A trimmed text has no white space at its ends, and nothing but white space is lost.
pub proof fn law_trim_takes_only_white_space(s: Seq<char>)
    ensures
        ({
            let t = trim(s);
            &&& t.len() > 0 ==> !is_ws(t[0]) && !is_ws(t.last())
            &&& exists|i: int, j: int|
                #![trigger s.subrange(i, j)]
                0 <= i <= j <= s.len() && t == s.subrange(i, j) && (forall|k: int|
                    0 <= k < i || j <= k < s.len() ==> is_ws(#[trigger] s[k]))
        }),
{
    lemma_trim_start_is(s);
    let a = trim_start(s);
    let i = s.len() - a.len();
    lemma_trim_end_is(a);
    let t = trim(s);
    let j = i + t.len();
    assert(t =~= s.subrange(i, j));
    assert forall|k: int| 0 <= k < i || j <= k < s.len() implies is_ws(#[trigger] s[k]) by {
        if k >= j {
            assert(a[k - i] == s[k]);
        }
    }
    if t.len() > 0 {
        lemma_trimmed_ends_of(s);
    }
}

proof fn lemma_trim_start_is(s: Seq<char>)
    ensures
        trim_start(s).len() <= s.len(),
        trim_start(s) == s.skip(s.len() - trim_start(s).len()),
        forall|k: int| 0 <= k < s.len() - trim_start(s).len() ==> is_ws(#[trigger] s[k]),
        trim_start(s).len() > 0 ==> !is_ws(trim_start(s)[0]),
    decreases s.len(),
{
    if s.len() > 0 && is_ws(s[0]) {
        lemma_trim_start_is(s.drop_first());
        let t = trim_start(s);
        assert(s.skip(s.len() - t.len()) =~= s.drop_first().skip(s.drop_first().len() - t.len()));
        assert forall|k: int| 0 <= k < s.len() - t.len() implies is_ws(#[trigger] s[k]) by {
            if k > 0 {
                assert(s.drop_first()[k - 1] == s[k]);
            }
        }
    } else {
        assert(s.skip(0) =~= s);
    }
}

proof fn lemma_trim_end_is(s: Seq<char>)
    ensures
        trim_end(s).len() <= s.len(),
        trim_end(s) == s.take(trim_end(s).len() as int),
        forall|k: int| trim_end(s).len() <= k < s.len() ==> is_ws(#[trigger] s[k]),
        trim_end(s).len() > 0 ==> !is_ws(trim_end(s).last()),
    decreases s.len(),
{
    if s.len() > 0 && is_ws(s.last()) {
        lemma_trim_end_is(s.drop_last());
        let t = trim_end(s);
        assert(s.take(t.len() as int) =~= s.drop_last().take(t.len() as int));
        assert forall|k: int| t.len() <= k < s.len() implies is_ws(#[trigger] s[k]) by {
            if k < s.len() - 1 {
                assert(s.drop_last()[k] == s[k]);
            }
        }
    } else {
        assert(s.take(s.len() as int) =~= s);
    }
}

proof fn lemma_trimmed_ends_of(s: Seq<char>)
    requires
        trim(s).len() > 0,
    ensures
        !is_ws(trim(s)[0]),
        !is_ws(trim(s).last()),
{
    lemma_trim_start_is(s);
    lemma_trim_end_is(trim_start(s));
}

/// The parts of a text, put together with the separator, are the text, and none of them
/// holds the separator.
pub proof fn law_split_parts_make_the_text(s: Seq<char>, c: char)
    ensures
        join(split(s, c), seq![c]) == s,
        split(s, c).len() > 0,
        forall|k: int| 0 <= k < split(s, c).len() ==> !(#[trigger] split(s, c)[k]).contains(c),
    decreases s.len(),
{
    lemma_find_char(s, c);
    let i = find_char(s, c) as int;
    let parts = split(s, c);
    if i >= s.len() {
        assert(parts[0] == s);
    } else {
        let rest = s.skip(i + 1);
        law_split_parts_make_the_text(rest, c);
        let head = s.take(i);
        assert(parts =~= seq![head] + split(rest, c));
        lemma_join_front(head, split(rest, c), seq![c]);
        assert(head + seq![c] + rest =~= s);
        assert forall|k: int| 0 <= k < parts.len() implies !(#[trigger] parts[k]).contains(c) by {
            if k == 0 {
                assert(parts[0] == head);
            } else {
                assert(parts[k] == split(rest, c)[k - 1]);
            }
        }
    }
}

proof fn lemma_join_front(first: Seq<char>, rest: Seq<Seq<char>>, sep: Seq<char>)
    requires
        rest.len() > 0,
    ensures
        join(seq![first] + rest, sep) == first + sep + join(rest, sep),
    decreases rest.len(),
{
    let all = seq![first] + rest;
    if rest.len() == 1 {
        assert(all.drop_last() =~= seq![first]);
        assert(join(seq![first], sep) == first);
        assert(all.last() == rest[0]);
    } else {
        lemma_join_front(first, rest.drop_last(), sep);
        assert(all.drop_last() =~= seq![first] + rest.drop_last());
        assert(all.last() == rest.last());
        assert(first + sep + join(rest.drop_last(), sep) + sep + rest.last() =~= first + sep + (
        join(rest.drop_last(), sep) + sep + rest.last()));
    }
}

/// A padded text is the text with blanks behind it, and at least as wide as the column.
pub proof fn law_padding_adds_only_blanks(s: Seq<char>, width: nat)
    ensures
        pad(s, width).len() == if s.len() < width {
            width
        } else {
            s.len()
        },
        has_prefix(pad(s, width), s),
        forall|k: int| s.len() <= k < pad(s, width).len() ==> #[trigger] pad(s, width)[k] == ' ',
        has_suffix(pad_before(s, width), s),
        pad_before(s, width).len() == pad(s, width).len(),
{
    lemma_prefix_of_sum(s, fill(s.len(), width));
    lemma_suffix_of_sum(fill(s.len(), width), s);
}

/// Texts can be put together in groups.
pub proof fn lemma_regroup(a: Seq<char>, b: Seq<char>, c: Seq<char>, d: Seq<char>, e: Seq<char>)
    ensures
        a + b + c == a + (b + c),
        a + b + c + d == a + (b + c + d),
        a + b + c + d + e == a + (b + c + d + e),
{
    assert(a + b + c =~= a + (b + c));
    assert(a + b + c + d =~= a + (b + c + d));
    assert(a + b + c + d + e =~= a + (b + c + d + e));
}

/// What stands in a text stands in every text that holds it.
pub proof fn lemma_contains_transitive(a: Seq<char>, b: Seq<char>, c: Seq<char>)
    requires
        contains(a, b),
        contains(b, c),
    ensures
        contains(a, c),
{
    let i = choose|i: int| occurs_at(a, b, i);
    assert(a.take(i) + b + a.skip(i + b.len()) =~= a) by {
        assert(a.subrange(i, i + b.len()) =~= b);
        assert forall|k: int| 0 <= k < a.len() implies (a.take(i) + b + a.skip(i + b.len()))[k]
            == a[k] by {
            if i <= k < i + b.len() {
                assert(a.subrange(i, i + b.len())[k - i] == a[k]);
            }
        }
    }
    lemma_contains_between(a.take(i), b, a.skip(i + b.len()), c);
}

/// A text holds its two last pieces side by side.
pub broadcast proof fn lemma_contains_pair(x: Seq<char>, a: Seq<char>, b: Seq<char>)
    ensures
        #[trigger] contains(x + a + b, a + b),
{
    assert(x + a + b =~= x + (a + b));
    lemma_contains_self(a + b);
    lemma_contains_second(x, a + b, a + b);
}

/// A text holds its three last pieces side by side.
pub broadcast proof fn lemma_contains_triple(x: Seq<char>, a: Seq<char>, b: Seq<char>, c: Seq<char>)
    ensures
        #[trigger] contains(x + a + b + c, a + b + c),
{
    assert(x + a + b + c =~= x + (a + b + c));
    lemma_contains_self(a + b + c);
    lemma_contains_second(x, a + b + c, a + b + c);
}

/// A text ends with its two last pieces.
pub broadcast proof fn lemma_suffix_of_pair(x: Seq<char>, a: Seq<char>, b: Seq<char>)
    ensures
        #[trigger] has_suffix(x + a + b, a + b),
{
    assert(x + a + b =~= x + (a + b));
    lemma_suffix_of_sum(x, a + b);
}

// ---------------------------------------------------------------------------
// What taking apart and reading give
// ---------------------------------------------------------------------------

/// Blanks, tabs and line ends are white space; letters, digits and the marks of a text are not.
pub proof fn law_blanks_are_white_space(c: char)
    ensures
        is_ws(' ') && is_ws('\t') && is_ws('\n') && is_ws('\r'),
        ascii_alphanumeric(c) ==> !is_ws(c),
        c == '-' || c == '*' || c == '#' || c == '[' || c == '"' || c == '/' || c == '.' ==> !is_ws(
            c,
        ),
{
}

/// Lower case changes the capital letters and nothing else, and once is enough.
pub proof fn law_lower_case_changes_letters_alone(s: Seq<char>, i: int)
    requires
        0 <= i < s.len(),
    ensures
        ascii_lower(s).len() == s.len(),
        !(0x41 <= s[i] as u32 <= 0x5a) ==> ascii_lower(s)[i] == s[i],
        s[i] == 'A' ==> ascii_lower(s)[i] == 'a',
        s[i] == 'Z' ==> ascii_lower(s)[i] == 'z',
        0x41 <= s[i] as u32 <= 0x5a ==> ascii_lower(s)[i] as u32 == s[i] as u32 + 32,
        ascii_lower(ascii_lower(s)) == ascii_lower(s),
{
    assert(ascii_lower(ascii_lower(s)) =~= ascii_lower(s));
}

/// The first word of a text is what stands before the first white space behind its beginning.
pub proof fn law_first_word_is_whole(lead: Seq<char>, word: Seq<char>, behind: Seq<char>)
    requires
        word.len() > 0,
        forall|i: int| 0 <= i < word.len() ==> !is_ws(#[trigger] word[i]),
        forall|i: int| 0 <= i < lead.len() ==> is_ws(#[trigger] lead[i]),
        behind.len() > 0 ==> is_ws(behind[0]),
    ensures
        first_word(lead + word + behind) == word,
    decreases lead.len(),
{
    let s = lead + word + behind;
    if lead.len() > 0 {
        assert(is_ws(lead[0]));
        assert(s[0] == lead[0]);
        assert(s.drop_first() =~= lead.drop_first() + word + behind);
        assert forall|i: int| 0 <= i < lead.drop_first().len() implies is_ws(
            #[trigger] lead.drop_first()[i],
        ) by {
            assert(is_ws(lead[i + 1]));
        }
        law_first_word_is_whole(lead.drop_first(), word, behind);
        let t = s.drop_first();
        assert(trim_start(s) == trim_start(t));
        lemma_word_behind(lead.drop_first(), word, behind);
    } else {
        assert(s =~= word + behind);
        assert(!is_ws(word[0]));
        lemma_word_end(word, behind);
        assert(s.take(word.len() as int) =~= word);
    }
}

proof fn lemma_word_behind(lead: Seq<char>, word: Seq<char>, behind: Seq<char>)
    requires
        word.len() > 0,
        !is_ws(word[0]),
        forall|i: int| 0 <= i < lead.len() ==> is_ws(#[trigger] lead[i]),
    ensures
        trim_start(lead + word + behind).len() > 0,
    decreases lead.len(),
{
    let s = lead + word + behind;
    if lead.len() > 0 {
        assert(is_ws(lead[0]));
        assert(s.drop_first() =~= lead.drop_first() + word + behind);
        assert forall|i: int| 0 <= i < lead.drop_first().len() implies is_ws(
            #[trigger] lead.drop_first()[i],
        ) by {
            assert(is_ws(lead[i + 1]));
        }
        lemma_word_behind(lead.drop_first(), word, behind);
    } else {
        assert(s[0] == word[0]);
    }
}

proof fn lemma_word_end(word: Seq<char>, behind: Seq<char>)
    requires
        forall|i: int| 0 <= i < word.len() ==> !is_ws(#[trigger] word[i]),
        behind.len() > 0 ==> is_ws(behind[0]),
    ensures
        word_end(word + behind) == word.len(),
    decreases word.len(),
{
    let s = word + behind;
    if word.len() > 0 {
        assert(s[0] == word[0]);
        assert(s.drop_first() =~= word.drop_first() + behind);
        assert forall|i: int| 0 <= i < word.drop_first().len() implies !is_ws(
            #[trigger] word.drop_first()[i],
        ) by {
            assert(!is_ws(word[i + 1]));
        }
        lemma_word_end(word.drop_first(), behind);
    } else {
        assert(s =~= behind);
    }
}

/// What is put before or behind a text can be taken off again; what does not begin or end so is not
/// taken off.
pub proof fn law_ends_are_taken_off(s: Seq<char>, p: Seq<char>)
    ensures
        after_prefix(p + s, p) == Some(s),
        before_suffix(s + p, p) == Some(s),
        after_prefix(s, p) matches Some(rest) ==> p + rest == s,
        before_suffix(s, p) matches Some(rest) ==> rest + p == s,
        after_prefix(s, p) is None <==> !has_prefix(s, p),
        before_suffix(s, p) is None <==> !has_suffix(s, p),
{
    lemma_prefix_of_sum(p, s);
    lemma_suffix_of_sum(s, p);
    assert((p + s).skip(p.len() as int) =~= s);
    assert((s + p).take(s.len() as int) =~= s);
    if has_prefix(s, p) {
        assert(p + s.skip(p.len() as int) =~= s);
    }
    if has_suffix(s, p) {
        assert(s.take(s.len() - p.len()) + p =~= s);
    }
}

/// Behind the last of some marks there is no other, and what stands there ends the text; a text
/// without the mark is kept.
pub proof fn law_nothing_marked_behind_the_last(s: Seq<char>, p: Seq<char>)
    requires
        p.len() > 0,
    ensures
        has_suffix(s, after_last(s, p)),
        !contains(after_last(s, p), p),
        contains(s, p) ==> has_suffix(s, p + after_last(s, p)),
        !contains(s, p) ==> after_last(s, p) == s,
{
    let top = s.len() - p.len();
    lemma_rfind_from(s, p, top);
    let i = rfind_from(s, p, top);
    if i < 0 {
        assert(s.skip(0) =~= s);
        if contains(s, p) {
            let j = choose|j: int| occurs_at(s, p, j);
            assert(!occurs_at(s, p, j));
        }
    } else {
        let rest = s.skip(i + p.len());
        assert(s.skip(s.len() - rest.len()) =~= rest);
        if contains(rest, p) {
            let j = choose|j: int| occurs_at(rest, p, j);
            assert(s.subrange(i + p.len() + j, i + p.len() + j + p.len()) =~= rest.subrange(
                j,
                j + p.len(),
            ));
            assert(occurs_at(s, p, i + p.len() + j));
        }
        assert(s.subrange(i, i + p.len()) == p);
        assert(s.skip(i) =~= p + rest);
        assert(occurs_at(s, p, i));
    }
}

proof fn lemma_rfind_from(s: Seq<char>, p: Seq<char>, i: int)
    ensures
        rfind_from(s, p, i) >= 0 ==> rfind_from(s, p, i) <= i && occurs_at(
            s,
            p,
            rfind_from(s, p, i),
        ),
        forall|j: int|
            0 <= j && rfind_from(s, p, i) < j <= i ==> !#[trigger] occurs_at(s, p, j),
    decreases i + 1,
{
    if i >= 0 && !occurs_at(s, p, i) {
        lemma_rfind_from(s, p, i - 1);
    }
}

/// Only what is to be replaced is: a text without it stays as it is, and where it stands first it
/// gives way, and the rest is treated alike.
pub proof fn law_only_occurrences_are_replaced(s: Seq<char>, from: Seq<char>, to: Seq<char>)
    requires
        from.len() > 0,
    ensures
        !contains(s, from) ==> replace(s, from, to) == s,
        replace(from + s, from, to) == to + replace(s, from, to),
        replace(from, from, to) == to,
    decreases s.len(),
{
    if !contains(s, from) && s.len() >= from.len() {
        assert(!occurs_at(s, from, 0));
        let t = s.drop_first();
        if contains(t, from) {
            let i = choose|i: int| occurs_at(t, from, i);
            assert(s.subrange(i + 1, i + 1 + from.len()) =~= t.subrange(i, i + from.len()));
            assert(occurs_at(s, from, i + 1));
        }
        law_only_occurrences_are_replaced(t, from, to);
        assert(seq![s[0]] + t =~= s);
    }
    let whole = from + s;
    assert(whole.subrange(0, from.len() as int) =~= from);
    assert(occurs_at(whole, from, 0));
    assert(whole.skip(from.len() as int) =~= s);
    assert(from.subrange(0, from.len() as int) =~= from);
    assert(occurs_at(from, from, 0));
    assert(from.skip(from.len() as int) =~= Seq::<char>::empty());
    assert(replace(Seq::<char>::empty(), from, to) =~= Seq::<char>::empty());
    assert(to + Seq::<char>::empty() =~= to);
}

/// A number that is written is read back, with a plus sign too; what is too large, empty or not all
/// digits is not read.
pub proof fn law_numbers_are_read_back(n: nat, max: nat, s: Seq<char>, i: int)
    ensures
        n <= max ==> parse_dec(dec(n), max) == Some(n),
        n <= max ==> parse_dec(seq!['+'] + dec(n), max) == Some(n),
        n > max ==> parse_dec(dec(n), max) is None,
        parse_dec(Seq::empty(), max) is None,
        0 <= i < s.len() && !is_digit(s[i]) && !(i == 0 && s[i] == '+') ==> parse_dec(s, max) is None,
        parse_dec(s, max) matches Some(v) ==> v <= max,
{
    lemma_dec_value(n);
    assert(is_digit(dec(n)[0]));
    assert((seq!['+'] + dec(n)).drop_first() =~= dec(n));
    if 0 <= i < s.len() && !is_digit(s[i]) && !(i == 0 && s[i] == '+') {
        let t = strip_plus(s);
        if s[0] == '+' {
            assert(t[i - 1] == s[i]);
        } else {
            assert(t[i] == s[i]);
        }
    }
}

/// A negative number is written with its sign.
pub proof fn law_signs_are_written(n: nat)
    ensures
        n > 0 ==> dec_int(-(n as int)) == seq!['-'] + dec(n),
        dec_int(n as int) == dec(n),
{
}

/// No line holds a line feed.
pub proof fn law_lines_hold_no_line_feed(s: Seq<char>, k: int)
    requires
        0 <= k < lines(s).len(),
    ensures
        !lines(s)[k].contains('\n'),
    decreases s.len(),
{
    lemma_find_char(s, '\n');
    let i = find_char(s, '\n') as int;
    if i >= s.len() {
        assert(lines(s)[k] == s);
    } else {
        let first = strip_cr(s.take(i));
        if k == 0 {
            assert(lines(s)[0] == first);
            if first.contains('\n') {
                let j = choose|j: int| 0 <= j < first.len() && first[j] == '\n';
                assert(s[j] == '\n');
            }
        } else {
            law_lines_hold_no_line_feed(s.skip(i + 1), k - 1);
            assert(lines(s)[k] == lines(s.skip(i + 1))[k - 1]);
        }
    }
}

} // verus!
