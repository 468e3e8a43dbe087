//! Design documents: markdown that states what an agent is to build.
//!
//! The document is read line by line. A line that starts with three backquotes
//! opens or closes a code fence, inside which nothing is a heading. A first-level
//! heading gives the title; each second-level heading starts a section, and the
//! lines up to the next one are its block.

use crate::text;
use crate::text::{
    chars_of, dec_u64, eq_str, find_char_in, lines_of, own, starts_with, string_of, strip_prefix,
    to_lower, trim_start_chars, trim_str, width_of,
};
use vstd::prelude::*;
use vstd::slice::slice_subrange;

verus! {

/// A group of requirements under a layer/phase header.
#[derive(Debug, Clone, PartialEq)]
pub struct RequirementGroup {
    /// The group name (e.g., "Foundation", "Backends + Integration").
    pub name: String,
    /// Execution hint parsed from parenthetical annotations: "parallel",
    /// "sequential", or empty.
    pub execution_hint: String,
    /// The requirements in this group.
    pub items: Vec<String>,
}

/// A parsed design document providing structured requirements for kickoff agents.
#[derive(Debug, Clone, PartialEq)]
pub struct DesignDoc {
    pub title: String,
    pub summary: String,
    pub requirements: Vec<String>,
    /// Structured requirement groups from `### Layer N:` or `### Phase N:` headers.
    /// Empty when no layer headers are detected (flat requirements).
    pub requirement_groups: Vec<RequirementGroup>,
    pub acceptance_criteria: Vec<String>,
    pub architecture: String,
    pub open_questions: Vec<String>,
    pub out_of_scope: Vec<String>,
    pub unknown_sections: Vec<(String, String)>,
}

/// The model of a requirement group.
#[verifier::ext_equal]
pub struct GroupView {
    pub name: Seq<char>,
    pub execution_hint: Seq<char>,
    pub items: Seq<Seq<char>>,
}

/// The model of a design document.
#[verifier::ext_equal]
pub struct DocView {
    pub title: Seq<char>,
    pub summary: Seq<char>,
    pub requirements: Seq<Seq<char>>,
    pub requirement_groups: Seq<GroupView>,
    pub acceptance_criteria: Seq<Seq<char>>,
    pub architecture: Seq<char>,
    pub open_questions: Seq<Seq<char>>,
    pub out_of_scope: Seq<Seq<char>>,
    pub unknown_sections: Seq<(Seq<char>, Seq<char>)>,
}

impl View for RequirementGroup {
    type V = GroupView;

    open spec fn view(&self) -> GroupView {
        GroupView {
            name: self.name@,
            execution_hint: self.execution_hint@,
            items: text::strs(self.items@),
        }
    }
}

/// The models of a list of groups.
pub open spec fn group_views(groups: Seq<RequirementGroup>) -> Seq<GroupView> {
    Seq::new(groups.len(), |i: int| groups[i]@)
}

/// The models of a list of named texts.
pub open spec fn pair_views(pairs: Seq<(String, String)>) -> Seq<(Seq<char>, Seq<char>)> {
    Seq::new(pairs.len(), |i: int| (pairs[i].0@, pairs[i].1@))
}

impl View for DesignDoc {
    type V = DocView;

    open spec fn view(&self) -> DocView {
        DocView {
            title: self.title@,
            summary: self.summary@,
            requirements: text::strs(self.requirements@),
            requirement_groups: group_views(self.requirement_groups@),
            acceptance_criteria: text::strs(self.acceptance_criteria@),
            architecture: self.architecture@,
            open_questions: text::strs(self.open_questions@),
            out_of_scope: text::strs(self.out_of_scope@),
            unknown_sections: pair_views(self.unknown_sections@),
        }
    }
}

// ---------------------------------------------------------------------------
// List items
// ---------------------------------------------------------------------------

/// A list line without its bullet and checkbox, or `None` where it has no bullet.
pub open spec fn after_bullet(line: Seq<char>) -> Option<Seq<char>> {
    if text::has_prefix(line, "- [x] "@) || text::has_prefix(line, "- [X] "@) || text::has_prefix(
        line,
        "- [ ] "@,
    ) || text::has_prefix(line, "* [x] "@) || text::has_prefix(line, "* [X] "@) || text::has_prefix(
        line,
        "* [ ] "@,
    ) {
        Some(line.skip(6))
    } else if text::has_prefix(line, "- "@) || text::has_prefix(line, "* "@) {
        Some(line.skip(2))
    } else {
        None
    }
}

/// Strip a markdown list prefix, returning the content after it.
pub fn strip_list_prefix(line: &str) -> (r: Option<String>)
    ensures
        text::opt_str(r) == after_bullet(line@),
{
    let cs = chars_of(line);
    proof {
        reveal_strlit("- [x] ");
        reveal_strlit("- [X] ");
        reveal_strlit("- [ ] ");
        reveal_strlit("* [x] ");
        reveal_strlit("* [X] ");
        reveal_strlit("* [ ] ");
        reveal_strlit("- ");
        reveal_strlit("* ");
    }
    if starts_with(line, "- [x] ") || starts_with(line, "- [X] ") || starts_with(line, "- [ ] ")
        || starts_with(line, "* [x] ") || starts_with(line, "* [X] ") || starts_with(
        line,
        "* [ ] ",
    ) {
        assert(cs@.subrange(6, cs@.len() as int) =~= cs@.skip(6));
        return Some(string_of(slice_subrange(cs.as_slice(), 6, cs.len())));
    }
    if starts_with(line, "- ") || starts_with(line, "* ") {
        assert(cs@.subrange(2, cs@.len() as int) =~= cs@.skip(2));
        return Some(string_of(slice_subrange(cs.as_slice(), 2, cs.len())));
    }
    None
}

/// The items that a list reader has finished, and the one it is reading.
#[verifier::ext_equal]
pub struct ItemsView {
    pub items: Seq<Seq<char>>,
    pub current: Option<Seq<char>>,
}

/// No items yet.
pub open spec fn no_items() -> ItemsView {
    ItemsView { items: Seq::empty(), current: None }
}

/// All items, the current one last.
pub open spec fn finished(st: ItemsView) -> Seq<Seq<char>> {
    match st.current {
        Some(item) => st.items.push(item),
        None => st.items,
    }
}

/// A new item begins.
pub open spec fn begin_item(st: ItemsView, item: Seq<char>) -> ItemsView {
    ItemsView { items: finished(st), current: Some(item) }
}

/// The current item goes on; text before the first item is ignored.
pub open spec fn extend_item(st: ItemsView, sep: Seq<char>, more: Seq<char>) -> ItemsView {
    match st.current {
        Some(item) => ItemsView { items: st.items, current: Some(item + sep + more) },
        None => st,
    }
}

/// What one line does to a plain list.
pub open spec fn item_step(st: ItemsView, line: Seq<char>) -> ItemsView {
    let trimmed = text::trim(line);
    if trimmed.len() == 0 {
        st
    } else {
        match after_bullet(trimmed) {
            Some(item) => begin_item(st, item),
            None => extend_item(st, " "@, trimmed),
        }
    }
}

/// Whether a line is indented by two bytes or more.
pub open spec fn is_indented(line: Seq<char>) -> bool {
    text::utf8_len(line.take(line.len() - text::trim_start(line).len())) >= 2
}

/// What one line does to a list whose indented bullets belong to the item above.
pub open spec fn nested_item_step(st: ItemsView, line: Seq<char>) -> ItemsView {
    let trimmed = text::trim(line);
    if trimmed.len() == 0 {
        st
    } else if is_indented(line) {
        match after_bullet(trimmed) {
            Some(item) => if st.current is Some {
                extend_item(st, "; "@, item)
            } else {
                begin_item(st, item)
            },
            None => extend_item(st, " "@, trimmed),
        }
    } else {
        match after_bullet(trimmed) {
            Some(item) => begin_item(st, item),
            None => extend_item(st, " "@, trimmed),
        }
    }
}

/// A plain list after its first `n` lines.
pub open spec fn items_after(lines: Seq<Seq<char>>, n: nat) -> ItemsView
    decreases n,
{
    if n == 0 {
        no_items()
    } else {
        item_step(items_after(lines, (n - 1) as nat), lines[n - 1])
    }
}

/// A nested list after its first `n` lines.
pub open spec fn nested_items_after(lines: Seq<Seq<char>>, n: nat) -> ItemsView
    decreases n,
{
    if n == 0 {
        no_items()
    } else {
        nested_item_step(nested_items_after(lines, (n - 1) as nat), lines[n - 1])
    }
}

/// The items of a plain list.
pub open spec fn list_items(block: Seq<char>) -> Seq<Seq<char>> {
    let lines = text::lines(block);
    finished(items_after(lines, lines.len()))
}

/// The items of a list whose indented bullets belong to the item above.
pub open spec fn nested_list_items(block: Seq<char>) -> Seq<Seq<char>> {
    let lines = text::lines(block);
    finished(nested_items_after(lines, lines.len()))
}

/// The reader of a list, in execution.
struct Items {
    items: Vec<String>,
    current: Option<String>,
}

impl View for Items {
    type V = ItemsView;

    closed spec fn view(&self) -> ItemsView {
        ItemsView { items: text::strs(self.items@), current: text::opt_str(self.current) }
    }
}

impl Items {
    fn new() -> (r: Items)
        ensures
            r@ == no_items(),
    {
        let r = Items { items: Vec::new(), current: None };
        assert(r@ =~= no_items());
        r
    }

    fn begin(self, item: String) -> (r: Items)
        ensures
            r@ == begin_item(self@, item@),
    {
        let items = self.finish();
        Items { items, current: Some(item) }
    }

    fn extend(self, sep: &str, more: &str) -> (r: Items)
        ensures
            r@ == extend_item(self@, sep@, more@),
    {
        match self.current {
            Some(item) => {
                let mut longer = item;
                longer.append(sep);
                longer.append(more);
                Items { items: self.items, current: Some(longer) }
            },
            None => self,
        }
    }

    fn finish(self) -> (r: Vec<String>)
        ensures
            text::strs(r@) == finished(self@),
    {
        let mut items = self.items;
        match self.current {
            Some(item) => {
                let ghost before = items@;
                items.push(item);
                proof {
                    text::lemma_strs_push(before, item);
                }
                items
            },
            None => items,
        }
    }
}

/// Parse list items from a block of text. Supports `- `, `* `, `- [ ] `, `- [x] `
/// prefixes.
pub fn parse_list_items(block: &str) -> (r: Vec<String>)
    ensures
        text::strs(r@) == list_items(block@),
{
    let lines = lines_of(block);
    let mut st = Items::new();
    let mut i: usize = 0;
    while i < lines.len()
        invariant
            i <= lines.len(),
            text::strs(lines@) == text::lines(block@),
            st@ == items_after(text::lines(block@), i as nat),
        decreases lines.len() - i,
    {
        assert(lines@[i as int]@ == text::lines(block@)[i as int]);
        let trimmed = trim_str(lines[i].as_str());
        if !trimmed.as_str().is_empty() {
            match strip_list_prefix(trimmed.as_str()) {
                Some(item) => {
                    st = st.begin(item);
                },
                None => {
                    st = st.extend(" ", trimmed.as_str());
                },
            }
        }
        i = i + 1;
    }
    assert(lines@.len() == text::lines(block@).len());
    st.finish()
}

proof fn lemma_utf8_len_at_least(s: Seq<char>)
    ensures
        text::utf8_len(s) >= s.len(),
    decreases s.len(),
{
    if s.len() > 0 {
        lemma_utf8_len_at_least(s.drop_last());
    }
}

proof fn lemma_trim_start_len(s: Seq<char>)
    ensures
        text::trim_start(s).len() <= s.len(),
    decreases s.len(),
{
    if s.len() > 0 && text::is_ws(s[0]) {
        lemma_trim_start_len(s.drop_first());
    }
}

fn indented(line: &str) -> (r: bool)
    ensures
        r == is_indented(line@),
{
    let cs = chars_of(line);
    proof {
        lemma_trim_start_len(cs@);
    }
    let k: usize = cs.len() - trim_start_chars(cs.as_slice()).len();
    let ghost lead = line@.take(k as int);
    proof {
        lemma_utf8_len_at_least(lead);
        if k == 1 {
            assert(lead.drop_last() =~= Seq::<char>::empty());
        }
        reveal_with_fuel(text::utf8_len, 2);
    }
    k >= 2 || (k == 1 && width_of(cs[0]) >= 2)
}

/// Parse list items, collapsing sub-bullets into their parent item.
///
/// A sub-bullet is a line indented 2+ spaces that starts with `- ` or `* `.
/// These are appended to the parent item's text rather than becoming separate
/// entries.
pub fn parse_list_items_collapsing_sub_bullets(block: &str) -> (r: Vec<String>)
    ensures
        text::strs(r@) == nested_list_items(block@),
{
    let lines = lines_of(block);
    let mut st = Items::new();
    let mut i: usize = 0;
    while i < lines.len()
        invariant
            i <= lines.len(),
            text::strs(lines@) == text::lines(block@),
            st@ == nested_items_after(text::lines(block@), i as nat),
        decreases lines.len() - i,
    {
        assert(lines@[i as int]@ == text::lines(block@)[i as int]);
        let line = lines[i].as_str();
        let trimmed = trim_str(line);
        if !trimmed.as_str().is_empty() {
            match strip_list_prefix(trimmed.as_str()) {
                Some(item) => {
                    if indented(line) && st.current.is_some() {
                        st = st.extend("; ", item.as_str());
                    } else {
                        st = st.begin(item);
                    }
                },
                None => {
                    st = st.extend(" ", trimmed.as_str());
                },
            }
        }
        i = i + 1;
    }
    assert(lines@.len() == text::lines(block@).len());
    st.finish()
}

// ---------------------------------------------------------------------------
// Requirement groups
// ---------------------------------------------------------------------------

/// A string without its trailing closing brackets.
pub open spec fn trim_closing(s: Seq<char>) -> Seq<char>
    decreases s.len(),
{
    if s.len() > 0 && s.last() == ')' {
        trim_closing(s.drop_last())
    } else {
        s
    }
}

/// What stands behind the first colon of a header, or all of it.
pub open spec fn header_rest(header: Seq<char>) -> Seq<char> {
    let i = text::find_char(header, ':');
    if i < header.len() {
        text::trim(header.skip(i as int + 1))
    } else {
        header
    }
}

/// How a group is to be worked on, from the remark in brackets behind its name.
pub open spec fn hint_of(remark: Seq<char>) -> Seq<char> {
    if text::has_prefix(remark, "parallel"@) {
        "parallel"@
    } else if text::has_prefix(remark, "sequential"@) {
        "sequential"@
    } else {
        remark
    }
}

/// The name and the hint of a layer header.
pub open spec fn layer_header(header: Seq<char>) -> (Seq<char>, Seq<char>) {
    let rest = header_rest(header);
    let p = text::find_char(rest, '(');
    if p < rest.len() {
        (
            text::trim(rest.take(p as int)),
            hint_of(text::trim(trim_closing(rest.skip(p as int + 1)))),
        )
    } else {
        (rest, Seq::empty())
    }
}

fn trim_closing_chars(s: &[char]) -> (r: &[char])
    ensures
        r@ == trim_closing(s@),
{
    let mut n: usize = s.len();
    assert(s@.take(n as int) =~= s@);
    while n > 0 && s[n - 1] == ')'
        invariant
            n <= s.len(),
            trim_closing(s@) == trim_closing(s@.take(n as int)),
        decreases n,
    {
        assert(s@.take(n as int).drop_last() =~= s@.take(n - 1));
        n = n - 1;
    }
    assert(s@.take(n as int) =~= s@.subrange(0, n as int));
    slice_subrange(s, 0, n)
}

/// Parse a layer/phase header, returning (name, execution_hint).
///
/// Input examples:
/// - `"Layer 1: Foundation (sequential — everything else depends on these)"`
/// - `"Phase 2: Backends + Integration (parallel — each agent independent)"`
/// - `"Layer 3: End-to-end delivery"`
pub fn parse_layer_header(header: &str) -> (r: (String, String))
    ensures
        r.0@ == layer_header(header@).0,
        r.1@ == layer_header(header@).1,
{
    let cs = chars_of(header);
    let i: usize = find_char_in(cs.as_slice(), ':');
    let rest: Vec<char> = if i < cs.len() {
        assert(cs@.subrange(i + 1, cs@.len() as int) =~= cs@.skip(i + 1));
        let tail = string_of(slice_subrange(cs.as_slice(), i + 1, cs.len()));
        chars_of(trim_str(tail.as_str()).as_str())
    } else {
        chars_of(header)
    };
    let p: usize = find_char_in(rest.as_slice(), '(');
    if p < rest.len() {
        assert(rest@.subrange(0, p as int) =~= rest@.take(p as int));
        assert(rest@.subrange(p + 1, rest@.len() as int) =~= rest@.skip(p + 1));
        let name = trim_str(string_of(slice_subrange(rest.as_slice(), 0, p)).as_str());
        let closed = trim_closing_chars(slice_subrange(rest.as_slice(), p + 1, rest.len()));
        let remark = trim_str(string_of(closed).as_str());
        let hint = if starts_with(remark.as_str(), "parallel") {
            own("parallel")
        } else if starts_with(remark.as_str(), "sequential") {
            own("sequential")
        } else {
            remark
        };
        (name, hint)
    } else {
        (string_of(rest.as_slice()), String::new())
    }
}

/// The header of a requirement group, where a line is one.
pub open spec fn group_header(line: Seq<char>) -> Option<Seq<char>> {
    if text::has_prefix(line, "### "@) {
        let rest = text::trim(line.skip("### "@.len() as int));
        if text::has_prefix(rest, "Layer "@) || text::has_prefix(rest, "Phase "@)
            || text::has_prefix(rest, "layer "@) || text::has_prefix(rest, "phase "@) {
            Some(rest)
        } else {
            None
        }
    } else {
        None
    }
}

fn group_header_of(line: &str) -> (r: Option<String>)
    ensures
        text::opt_str(r) == group_header(line@),
{
    match strip_prefix(line, "### ") {
        Some(tail) => {
            let rest = trim_str(tail.as_str());
            if starts_with(rest.as_str(), "Layer ") || starts_with(rest.as_str(), "Phase ")
                || starts_with(rest.as_str(), "layer ") || starts_with(rest.as_str(), "phase ") {
                Some(rest)
            } else {
                None
            }
        },
        None => None,
    }
}

/// The groups that a reader of requirements has finished, the header of the one it
/// is reading, and the lines since that header.
#[verifier::ext_equal]
pub struct GroupsView {
    pub groups: Seq<GroupView>,
    pub header: Option<Seq<char>>,
    pub chunk: Seq<char>,
}

/// The group of a header and the lines below it.
pub open spec fn make_group(header: Seq<char>, chunk: Seq<char>) -> GroupView {
    GroupView {
        name: layer_header(header).0,
        execution_hint: layer_header(header).1,
        items: nested_list_items(chunk),
    }
}

/// All groups, the current one last.
pub open spec fn all_groups(st: GroupsView) -> Seq<GroupView> {
    match st.header {
        Some(header) => st.groups.push(make_group(header, st.chunk)),
        None => st.groups,
    }
}

/// What one line does to the groups.
pub open spec fn group_step(st: GroupsView, line: Seq<char>) -> GroupsView {
    match group_header(line) {
        Some(header) => GroupsView {
            groups: all_groups(st),
            header: Some(header),
            chunk: Seq::empty(),
        },
        None => GroupsView {
            groups: st.groups,
            header: st.header,
            chunk: st.chunk + line + "\n"@,
        },
    }
}

/// The groups after the first `n` lines.
pub open spec fn groups_after(lines: Seq<Seq<char>>, n: nat) -> GroupsView
    decreases n,
{
    if n == 0 {
        GroupsView { groups: Seq::empty(), header: None, chunk: Seq::empty() }
    } else {
        group_step(groups_after(lines, (n - 1) as nat), lines[n - 1])
    }
}

/// The groups of a block of requirements.
pub open spec fn requirement_groups(block: Seq<char>) -> Seq<GroupView> {
    let lines = text::lines(block);
    all_groups(groups_after(lines, lines.len()))
}

/// The items of the first `n` groups, one after the other.
pub open spec fn grouped_items(groups: Seq<GroupView>, n: nat) -> Seq<Seq<char>>
    decreases n,
{
    if n == 0 {
        Seq::empty()
    } else {
        grouped_items(groups, (n - 1) as nat) + groups[n - 1].items
    }
}

/// The requirements of a block without regard to groups: those of the groups in
/// order, or the items of the whole block where it has no groups.
pub open spec fn flat_requirements(block: Seq<char>) -> Seq<Seq<char>> {
    let groups = requirement_groups(block);
    if groups.len() > 0 {
        grouped_items(groups, groups.len())
    } else {
        nested_list_items(block)
    }
}

fn finish_group(header: &str, chunk: &str) -> (r: RequirementGroup)
    ensures
        r@ == make_group(header@, chunk@),
{
    let (name, hint) = parse_layer_header(header);
    RequirementGroup {
        name,
        execution_hint: hint,
        items: parse_list_items_collapsing_sub_bullets(chunk),
    }
}

fn push_group(groups: &mut Vec<RequirementGroup>, header: &Option<String>, chunk: &str)
    ensures
        group_views(final(groups)@) == all_groups(
            GroupsView {
                groups: group_views(old(groups)@),
                header: text::opt_str(*header),
                chunk: chunk@,
            },
        ),
{
    let ghost before = groups@;
    match header {
        Some(h) => {
            groups.push(finish_group(h.as_str(), chunk));
            assert(group_views(groups@) =~= group_views(before).push(groups@.last()@));
        },
        None => {},
    }
}

fn collect_items(groups: &Vec<RequirementGroup>) -> (r: Vec<String>)
    ensures
        text::strs(r@) == grouped_items(group_views(groups@), groups@.len()),
{
    let mut out: Vec<String> = Vec::new();
    let mut i: usize = 0;
    assert(text::strs(out@) =~= Seq::<Seq<char>>::empty());
    while i < groups.len()
        invariant
            i <= groups.len(),
            text::strs(out@) == grouped_items(group_views(groups@), i as nat),
        decreases groups.len() - i,
    {
        let items = &groups[i].items;
        let ghost start = text::strs(out@);
        let ghost views = text::strs(items@);
        let mut k: usize = 0;
        assert(start + views.take(0) =~= start);
        while k < items.len()
            invariant
                k <= items.len(),
                views == text::strs(items@),
                text::strs(out@) == start + views.take(k as int),
            decreases items.len() - k,
        {
            let ghost before = out@;
            out.push(own(items[k].as_str()));
            proof {
                text::lemma_strs_push(before, out@.last());
                assert(start + views.take(k + 1) =~= (start + views.take(k as int)).push(
                    views[k as int],
                ));
            }
            k = k + 1;
        }
        assert(views.take(views.len() as int) =~= views);
        assert(group_views(groups@)[i as int].items == views);
        i = i + 1;
    }
    out
}

/// Parse a requirements block, detecting `### Layer N:` / `### Phase N:` headers.
///
/// Returns (flat_requirements, groups). If no layer headers are found, groups is
/// empty and flat_requirements contains all items. Sub-bullets (indented `- ` or
/// `* `) are collapsed into their parent item rather than becoming separate entries.
pub fn parse_requirements_block(block: &str) -> (r: (Vec<String>, Vec<RequirementGroup>))
    ensures
        text::strs(r.0@) == flat_requirements(block@),
        group_views(r.1@) == requirement_groups(block@),
{
    let lines = lines_of(block);
    let mut groups: Vec<RequirementGroup> = Vec::new();
    let mut header: Option<String> = None;
    let mut chunk = String::new();
    let mut i: usize = 0;
    assert(group_views(groups@) =~= Seq::<GroupView>::empty());
    while i < lines.len()
        invariant
            i <= lines.len(),
            text::strs(lines@) == text::lines(block@),
            groups_after(text::lines(block@), i as nat) == (GroupsView {
                groups: group_views(groups@),
                header: text::opt_str(header),
                chunk: chunk@,
            }),
        decreases lines.len() - i,
    {
        assert(lines@[i as int]@ == text::lines(block@)[i as int]);
        let line = lines[i].as_str();
        match group_header_of(line) {
            Some(next) => {
                push_group(&mut groups, &header, chunk.as_str());
                header = Some(next);
                chunk = String::new();
            },
            None => {
                chunk.append(line);
                chunk.append("\n");
            },
        }
        i = i + 1;
    }
    assert(lines@.len() == text::lines(block@).len());
    push_group(&mut groups, &header, chunk.as_str());
    assert(groups@.len() == group_views(groups@).len());
    let flat = if groups.len() > 0 {
        collect_items(&groups)
    } else {
        parse_list_items_collapsing_sub_bullets(block)
    };
    (flat, groups)
}

// ---------------------------------------------------------------------------
// Documents
// ---------------------------------------------------------------------------

/// A document with nothing in it.
pub open spec fn empty_doc() -> DocView {
    DocView {
        title: Seq::empty(),
        summary: Seq::empty(),
        requirements: Seq::empty(),
        requirement_groups: Seq::empty(),
        acceptance_criteria: Seq::empty(),
        architecture: Seq::empty(),
        open_questions: Seq::empty(),
        out_of_scope: Seq::empty(),
        unknown_sections: Seq::empty(),
    }
}

/// A document with the block of a section put in its place. The section is named
/// by its heading in lower case; before the first section there is none, and the
/// block is dropped. A section that is not known is kept under its name, unless
/// its block is blank.
pub open spec fn with_section(doc: DocView, section: Option<Seq<char>>, block: Seq<char>) -> DocView {
    match section {
        None => doc,
        Some(name) => if name == "summary"@ {
            DocView { summary: text::trim(block), ..doc }
        } else if name == "requirements"@ {
            DocView {
                requirements: flat_requirements(block),
                requirement_groups: requirement_groups(block),
                ..doc
            }
        } else if name == "acceptance criteria"@ {
            DocView { acceptance_criteria: list_items(block), ..doc }
        } else if name == "architecture"@ {
            DocView { architecture: text::trim(block), ..doc }
        } else if name == "open questions"@ {
            DocView { open_questions: list_items(block), ..doc }
        } else if name == "out of scope"@ {
            DocView { out_of_scope: list_items(block), ..doc }
        } else if text::trim(block).len() > 0 {
            DocView {
                unknown_sections: doc.unknown_sections.push((name, text::trim(block))),
                ..doc
            }
        } else {
            doc
        },
    }
}

/// The title that a line gives, where it is a first-level heading. The word
/// `Feature:` before the title is dropped.
pub open spec fn title_of(line: Seq<char>) -> Option<Seq<char>> {
    if text::has_prefix(line, "# "@) {
        let rest = text::trim(line.skip("# "@.len() as int));
        if text::has_prefix(rest, "#"@) {
            None
        } else if text::has_prefix(rest, "Feature:"@) {
            Some(text::trim(rest.skip("Feature:"@.len() as int)))
        } else if text::has_prefix(rest, "feature:"@) {
            Some(text::trim(rest.skip("feature:"@.len() as int)))
        } else {
            Some(rest)
        }
    } else {
        None
    }
}

/// The name of the section that a line starts, where it is a second-level heading.
pub open spec fn section_of(line: Seq<char>) -> Option<Seq<char>> {
    match text::after_prefix(line, "## "@) {
        Some(rest) => Some(text::lower(text::trim(rest))),
        None => None,
    }
}

/// A reader of documents: the document so far, the section it is in, the block of
/// that section so far, and whether it is inside a code fence.
#[verifier::ext_equal]
pub struct ReaderView {
    pub doc: DocView,
    pub section: Option<Seq<char>>,
    pub block: Seq<char>,
    pub fenced: bool,
}

/// What one line does to the reader.
pub open spec fn doc_step(st: ReaderView, line: Seq<char>) -> ReaderView {
    let fence = text::has_prefix(line, "```"@);
    if fence || st.fenced {
        ReaderView {
            block: st.block + line + "\n"@,
            fenced: st.fenced != fence,
            ..st
        }
    } else {
        match title_of(line) {
            Some(title) => ReaderView {
                doc: DocView { title, ..st.doc },
                section: None,
                block: Seq::empty(),
                fenced: false,
            },
            None => match section_of(line) {
                Some(name) => ReaderView {
                    doc: with_section(st.doc, st.section, st.block),
                    section: Some(name),
                    block: Seq::empty(),
                    fenced: false,
                },
                None => ReaderView { block: st.block + line + "\n"@, ..st },
            },
        }
    }
}

/// The reader after the first `n` lines.
pub open spec fn reader_after(lines: Seq<Seq<char>>, n: nat) -> ReaderView
    decreases n,
{
    if n == 0 {
        ReaderView { doc: empty_doc(), section: None, block: Seq::empty(), fenced: false }
    } else {
        doc_step(reader_after(lines, (n - 1) as nat), lines[n - 1])
    }
}

/// The document that a text states.
pub open spec fn design_doc(content: Seq<char>) -> DocView {
    let lines = text::lines(content);
    let st = reader_after(lines, lines.len());
    with_section(st.doc, st.section, st.block)
}

/// Flush accumulated block text into the appropriate section of the doc.
pub fn flush_block(doc: &mut DesignDoc, section: &Option<String>, block: &str)
    ensures
        final(doc)@ == with_section(old(doc)@, text::opt_str(*section), block@),
{
    if let Some(name) = section {
        let n = name.as_str();
        if eq_str(n, "summary") {
            doc.summary = trim_str(block);
        } else if eq_str(n, "requirements") {
            let (flat, groups) = parse_requirements_block(block);
            doc.requirements = flat;
            doc.requirement_groups = groups;
        } else if eq_str(n, "acceptance criteria") {
            doc.acceptance_criteria = parse_list_items(block);
        } else if eq_str(n, "architecture") {
            doc.architecture = trim_str(block);
        } else if eq_str(n, "open questions") {
            doc.open_questions = parse_list_items(block);
        } else if eq_str(n, "out of scope") {
            doc.out_of_scope = parse_list_items(block);
        } else {
            let trimmed = trim_str(block);
            if !trimmed.as_str().is_empty() {
                let ghost before = doc.unknown_sections@;
                doc.unknown_sections.push((own(n), trimmed));
                assert(pair_views(doc.unknown_sections@) =~= pair_views(before).push(
                    (n@, trimmed@),
                ));
            }
        }
    }
}

fn title_from(line: &str) -> (r: Option<String>)
    ensures
        text::opt_str(r) == title_of(line@),
{
    match strip_prefix(line, "# ") {
        Some(tail) => {
            let rest = trim_str(tail.as_str());
            if starts_with(rest.as_str(), "#") {
                None
            } else {
                match strip_prefix(rest.as_str(), "Feature:") {
                    Some(title) => Some(trim_str(title.as_str())),
                    None => match strip_prefix(rest.as_str(), "feature:") {
                        Some(title) => Some(trim_str(title.as_str())),
                        None => Some(rest),
                    },
                }
            }
        },
        None => None,
    }
}

fn section_from(line: &str) -> (r: Option<String>)
    ensures
        text::opt_str(r) == section_of(line@),
{
    match strip_prefix(line, "## ") {
        Some(tail) => Some(to_lower(trim_str(tail.as_str()).as_str())),
        None => None,
    }
}

fn new_doc() -> (r: DesignDoc)
    ensures
        r@ == empty_doc(),
{
    let doc = DesignDoc {
        title: String::new(),
        summary: String::new(),
        requirements: Vec::new(),
        requirement_groups: Vec::new(),
        acceptance_criteria: Vec::new(),
        architecture: String::new(),
        open_questions: Vec::new(),
        out_of_scope: Vec::new(),
        unknown_sections: Vec::new(),
    };
    assert(doc@ =~= empty_doc());
    doc
}

/// Parse a markdown design document into a `DesignDoc`.
///
/// Never fails — missing sections produce empty fields.
pub fn parse_design_doc(content: &str) -> (doc: DesignDoc)
    ensures
        doc@ == design_doc(content@),
{
    let lines = lines_of(content);
    let mut doc = new_doc();
    let mut section: Option<String> = None;
    let mut block = String::new();
    let mut fenced = false;
    let mut i: usize = 0;
    while i < lines.len()
        invariant
            i <= lines.len(),
            text::strs(lines@) == text::lines(content@),
            reader_after(text::lines(content@), i as nat) == (ReaderView {
                doc: doc@,
                section: text::opt_str(section),
                block: block@,
                fenced,
            }),
        decreases lines.len() - i,
    {
        assert(lines@[i as int]@ == text::lines(content@)[i as int]);
        let line = lines[i].as_str();
        i = i + 1;
        if starts_with(line, "```") {
            fenced = !fenced;
            block.append(line);
            block.append("\n");
        } else if fenced {
            block.append(line);
            block.append("\n");
        } else {
            match title_from(line) {
                Some(title) => {
                    doc.title = title;
                    section = None;
                    block = String::new();
                },
                None => match section_from(line) {
                    Some(name) => {
                        flush_block(&mut doc, &section, block.as_str());
                        section = Some(name);
                        block = String::new();
                    },
                    None => {
                        block.append(line);
                        block.append("\n");
                    },
                },
            }
        }
    }
    assert(lines@.len() == text::lines(content@).len());
    flush_block(&mut doc, &section, block.as_str());
    doc
}

/// Inside a code fence no line is a heading: every line up to the one that closes
/// the fence goes into the block and changes nothing else.
pub proof fn law_fence_hides_headings(st: ReaderView, line: Seq<char>)
    requires
        st.fenced,
    ensures
        doc_step(st, line).doc == st.doc,
        doc_step(st, line).section == st.section,
        doc_step(st, line).block == st.block + line + "\n"@,
        doc_step(st, line).fenced == !text::has_prefix(line, "```"@),
{
}

// ---------------------------------------------------------------------------
// Warnings
// ---------------------------------------------------------------------------

/// The warnings about sections that a document lacks, in order.
pub open spec fn doc_warnings(doc: DocView) -> Seq<Seq<char>> {
    let a = if doc.summary.len() == 0 {
        seq!["Design doc has no ## Summary section"@]
    } else {
        Seq::empty()
    };
    let b = if doc.requirements.len() == 0 {
        a.push("Design doc has no ## Requirements section"@)
    } else {
        a
    };
    if doc.acceptance_criteria.len() == 0 {
        b.push("Design doc has no ## Acceptance Criteria section"@)
    } else {
        b
    }
}

/// Validate a design doc and return warnings for missing sections.
pub fn validate_design_doc(doc: &DesignDoc) -> (warnings: Vec<String>)
    ensures
        text::strs(warnings@) == doc_warnings(doc@),
{
    let mut warnings: Vec<String> = Vec::new();
    if doc.summary.as_str().is_empty() {
        warnings.push(own("Design doc has no ## Summary section"));
    }
    if doc.requirements.len() == 0 {
        warnings.push(own("Design doc has no ## Requirements section"));
    }
    if doc.acceptance_criteria.len() == 0 {
        warnings.push(own("Design doc has no ## Acceptance Criteria section"));
    }
    assert(text::strs(warnings@) =~= doc_warnings(doc@));
    warnings
}

// ---------------------------------------------------------------------------
// Rendering
// ---------------------------------------------------------------------------

/// One line for each of the first `n` items, behind a bullet.
pub open spec fn with_bullets(
    acc: Seq<char>,
    bullet: Seq<char>,
    items: Seq<Seq<char>>,
    n: nat,
) -> Seq<char>
    decreases n,
{
    if n == 0 {
        acc
    } else {
        with_bullets(acc, bullet, items, (n - 1) as nat) + bullet + items[n - 1] + "\n"@
    }
}

/// A headed list, where it is not empty.
pub open spec fn with_headed_list(
    acc: Seq<char>,
    heading: Seq<char>,
    bullet: Seq<char>,
    items: Seq<Seq<char>>,
) -> Seq<char> {
    if items.len() == 0 {
        acc
    } else {
        with_bullets(acc + heading, bullet, items, items.len()) + "\n"@
    }
}

/// A headed text, where it is not empty.
pub open spec fn with_headed_text(acc: Seq<char>, heading: Seq<char>, body: Seq<char>) -> Seq<char> {
    if body.len() == 0 {
        acc
    } else {
        acc + heading + body + "\n\n"@
    }
}

/// The first `n` sections that are not known, each under its name.
pub open spec fn with_unknown(
    acc: Seq<char>,
    sections: Seq<(Seq<char>, Seq<char>)>,
    n: nat,
) -> Seq<char>
    decreases n,
{
    if n == 0 {
        acc
    } else {
        with_unknown(acc, sections, (n - 1) as nat) + "### "@ + sections[n - 1].0 + "\n\n"@
            + sections[n - 1].1 + "\n\n"@
    }
}

/// A document as a section of a prompt.
pub open spec fn design_section(doc: DocView) -> Seq<char> {
    let a = with_headed_text("\n## Design Specification\n\n"@, "### Summary\n\n"@, doc.summary);
    let b = with_headed_list(a, "### Requirements\n\n"@, "- "@, doc.requirements);
    let c = with_headed_list(
        b,
        "### Acceptance Criteria\n\n"@,
        "- [ ] "@,
        doc.acceptance_criteria,
    );
    let d = with_headed_text(c, "### Architecture\n\n"@, doc.architecture);
    let e = with_headed_list(d, "### Out of Scope\n\n"@, "- "@, doc.out_of_scope);
    with_unknown(e, doc.unknown_sections, doc.unknown_sections.len())
}

fn push_headed_list(out: &mut String, heading: &str, bullet: &str, items: &Vec<String>)
    ensures
        final(out)@ == with_headed_list(old(out)@, heading@, bullet@, text::strs(items@)),
{
    let ghost views = text::strs(items@);
    if items.len() > 0 {
        out.append(heading);
        let ghost start = out@;
        let mut i: usize = 0;
        while i < items.len()
            invariant
                i <= items.len(),
                views == text::strs(items@),
                out@ == with_bullets(start, bullet@, views, i as nat),
            decreases items.len() - i,
        {
            out.append(bullet);
            out.append(items[i].as_str());
            out.append("\n");
            i = i + 1;
        }
        out.append("\n");
    }
}

fn push_headed_text(out: &mut String, heading: &str, body: &str)
    ensures
        final(out)@ == with_headed_text(old(out)@, heading@, body@),
{
    if !body.is_empty() {
        out.append(heading);
        out.append(body);
        out.append("\n\n");
    }
}

/// Render a parsed design doc as a `## Design Specification` markdown block.
pub fn build_design_doc_section(doc: &DesignDoc) -> (out: String)
    ensures
        out@ == design_section(doc@),
{
    let mut out = own("\n## Design Specification\n\n");
    push_headed_text(&mut out, "### Summary\n\n", doc.summary.as_str());
    push_headed_list(&mut out, "### Requirements\n\n", "- ", &doc.requirements);
    push_headed_list(
        &mut out,
        "### Acceptance Criteria\n\n",
        "- [ ] ",
        &doc.acceptance_criteria,
    );
    push_headed_text(&mut out, "### Architecture\n\n", doc.architecture.as_str());
    push_headed_list(&mut out, "### Out of Scope\n\n", "- ", &doc.out_of_scope);
    let ghost start = out@;
    let sections = &doc.unknown_sections;
    let mut i: usize = 0;
    while i < sections.len()
        invariant
            i <= sections.len(),
            out@ == with_unknown(start, pair_views(sections@), i as nat),
        decreases sections.len() - i,
    {
        out.append("### ");
        out.append(sections[i].0.as_str());
        out.append("\n\n");
        out.append(sections[i].1.as_str());
        out.append("\n\n");
        i = i + 1;
    }
    out
}

/// What stands above the open questions.
pub const ESCALATION_HEAD: &'static str = "\n## Open Questions — Escalation Required\n\nThe design document contains unresolved questions. **Before implementing anything affected by these questions**, escalate to the user:\n\n";

/// What stands below the open questions.
pub const ESCALATION_FOOT: &'static str = "\n**Action**: For each question that affects your implementation, add a comment:\n`crosslink comment <issue_id> \"Blocker: <question>\" --kind blocker`\nThen proceed with the parts of the feature that are NOT blocked by these questions.\n";

/// One numbered line for each of the first `n` questions.
pub open spec fn with_questions(acc: Seq<char>, questions: Seq<Seq<char>>, n: nat) -> Seq<char>
    decreases n,
{
    if n == 0 {
        acc
    } else {
        with_questions(acc, questions, (n - 1) as nat) + text::dec(n) + ". "@ + questions[n - 1]
            + "\n"@
    }
}

/// The instructions about open questions, where there are any.
pub open spec fn escalation(questions: Seq<Seq<char>>) -> Option<Seq<char>> {
    if questions.len() == 0 {
        None
    } else {
        Some(with_questions(ESCALATION_HEAD@, questions, questions.len()) + ESCALATION_FOOT@)
    }
}

/// Build an escalation instructions block when there are open questions.
///
/// Returns `None` if there are no open questions.
pub fn build_open_questions_escalation(doc: &DesignDoc) -> (r: Option<String>)
    ensures
        text::opt_str(r) == escalation(doc@.open_questions),
{
    let questions = &doc.open_questions;
    if questions.len() == 0 {
        return None;
    }
    let mut out = own(ESCALATION_HEAD);
    let mut i: usize = 0;
    while i < questions.len()
        invariant
            i <= questions.len(),
            out@ == with_questions(ESCALATION_HEAD@, text::strs(questions@), i as nat),
        decreases questions.len() - i,
    {
        out.append(dec_u64(i as u64 + 1).as_str());
        out.append(". ");
        out.append(questions[i].as_str());
        out.append("\n");
        i = i + 1;
    }
    out.append(ESCALATION_FOOT);
    Some(out)
}

// ---------------------------------------------------------------------------
// Reading back what was rendered
// ---------------------------------------------------------------------------

/// An item that stays one item when it is rendered: one line, not empty, without
/// white space at its ends.
pub open spec fn one_line_item(item: Seq<char>) -> bool {
    item.len() > 0 && text::trim(item) == item && !item.contains('\n')
}

proof fn lemma_trim_keeps(s: Seq<char>)
    requires
        s.len() > 0,
        !text::is_ws(s[0]),
        !text::is_ws(s.last()),
    ensures
        text::trim(s) == s,
{
}

proof fn lemma_checkbox_line(item: Seq<char>)
    requires
        one_line_item(item),
    ensures
        text::trim("- [ ] "@ + item) == "- [ ] "@ + item,
        after_bullet("- [ ] "@ + item) == Some(item),
        !("- [ ] "@ + item).contains('\n'),
        ("- [ ] "@ + item).last() != '\r',
{
    let line = "- [ ] "@ + item;
    reveal_strlit("- [ ] ");
    text::lemma_trimmed_ends(item);
    assert(line[0] == '-');
    assert(line.last() == item.last());
    lemma_trim_keeps(line);
    assert(line.take(6) =~= "- [ ] "@);
    assert(line.skip(6) =~= item);
    assert forall|i: int| 0 <= i < line.len() implies line[i] != '\n' by {
        if i >= 6 {
            assert(line[i] == item[i - 6]);
            assert(item.contains(item[i - 6]));
        }
    }
}

proof fn lemma_bullets_read_back(items: Seq<Seq<char>>, n: nat)
    requires
        n <= items.len(),
        forall|i: int| 0 <= i < items.len() ==> one_line_item(#[trigger] items[i]),
    ensures
        text::whole_lines(with_bullets(Seq::empty(), "- [ ] "@, items, n)),
        text::lines(with_bullets(Seq::empty(), "- [ ] "@, items, n)) == Seq::new(
            n,
            |i: int| "- [ ] "@ + items[i],
        ),
    decreases n,
{
    let lines = Seq::new(n, |i: int| "- [ ] "@ + items[i]);
    reveal_strlit("\n");
    if n == 0 {
        assert(text::lines(Seq::<char>::empty()) =~= lines);
    } else {
        let t = with_bullets(Seq::empty(), "- [ ] "@, items, (n - 1) as nat);
        let l = "- [ ] "@ + items[n - 1];
        lemma_bullets_read_back(items, (n - 1) as nat);
        lemma_checkbox_line(items[n - 1]);
        text::lemma_lines_push(t, l);
        assert("\n"@ =~= seq!['\n']);
        assert(t + "- [ ] "@ + items[n - 1] + "\n"@ =~= t + l + seq!['\n']);
        assert(Seq::new((n - 1) as nat, |i: int| "- [ ] "@ + items[i]).push(l) =~= lines);
    }
}

proof fn lemma_items_of_checkboxes(items: Seq<Seq<char>>, n: nat)
    requires
        n <= items.len(),
        forall|i: int| 0 <= i < items.len() ==> one_line_item(#[trigger] items[i]),
    ensures
        finished(
            items_after(Seq::new(items.len(), |i: int| "- [ ] "@ + items[i]), n),
        ) == items.take(n as int),
    decreases n,
{
    let lines = Seq::new(items.len(), |i: int| "- [ ] "@ + items[i]);
    if n == 0 {
        assert(items.take(0) =~= Seq::<Seq<char>>::empty());
    } else {
        lemma_items_of_checkboxes(items, (n - 1) as nat);
        lemma_checkbox_line(items[n - 1]);
        assert(lines[n - 1].len() > 0);
        assert(items.take(n as int) =~= items.take(n - 1).push(items[n - 1]));
    }
}

/// The acceptance criteria that a document section lists read back as the same
/// criteria, in the same order.
pub proof fn law_rendered_criteria_read_back(items: Seq<Seq<char>>)
    requires
        forall|i: int| 0 <= i < items.len() ==> one_line_item(#[trigger] items[i]),
    ensures
        list_items(with_bullets(Seq::empty(), "- [ ] "@, items, items.len())) == items,
{
    lemma_bullets_read_back(items, items.len());
    lemma_items_of_checkboxes(items, items.len());
    assert(items.take(items.len() as int) =~= items);
}

/// Whether a document has nothing of the section of this name.
pub open spec fn lacks(doc: DocView, name: Seq<char>) -> bool {
    &&& name == "summary"@ ==> doc.summary.len() == 0
    &&& name == "requirements"@ ==> doc.requirements.len() == 0
        && doc.requirement_groups.len() == 0
    &&& name == "acceptance criteria"@ ==> doc.acceptance_criteria.len() == 0
    &&& name == "architecture"@ ==> doc.architecture.len() == 0
    &&& name == "open questions"@ ==> doc.open_questions.len() == 0
    &&& name == "out of scope"@ ==> doc.out_of_scope.len() == 0
}

proof fn lemma_unheaded_section(lines: Seq<Seq<char>>, n: nat, name: Seq<char>)
    requires
        n <= lines.len(),
        forall|k: int| 0 <= k < n ==> section_of(#[trigger] lines[k]) != Some(name),
    ensures
        reader_after(lines, n).section != Some(name),
        lacks(reader_after(lines, n).doc, name),
    decreases n,
{
    if n > 0 {
        lemma_unheaded_section(lines, (n - 1) as nat, name);
        assert(section_of(lines[n - 1]) != Some(name));
    }
}

/// A section that no heading of the document names is empty.
pub proof fn law_missing_sections_are_empty(content: Seq<char>, name: Seq<char>)
    requires
        forall|k: int|
            0 <= k < text::lines(content).len() ==> section_of(
                #[trigger] text::lines(content)[k],
            ) != Some(name),
    ensures
        lacks(design_doc(content), name),
{
    lemma_unheaded_section(text::lines(content), text::lines(content).len(), name);
}

/// Whether two lines are headings of sections whose titles are the same in lower case, white
/// space around them aside.
pub open spec fn same_heading(a: Seq<char>, b: Seq<char>) -> bool {
    match (text::after_prefix(a, "## "@), text::after_prefix(b, "## "@)) {
        (Some(x), Some(y)) => text::lower(text::trim(x)) == text::lower(text::trim(y)),
        _ => false,
    }
}

/// Titles of ASCII characters that differ in the case of letters alone are the same.
pub proof fn law_ascii_case_of_headings(a: Seq<char>, b: Seq<char>)
    requires
        text::has_prefix(a, "## "@),
        text::has_prefix(b, "## "@),
        text::ascii_lower(a) == text::ascii_lower(b),
        text::all_ascii(text::trim(a.skip("## "@.len() as int))),
    ensures
        same_heading(a, b),
{
    let x = a.skip("## "@.len() as int);
    let y = b.skip("## "@.len() as int);
    assert(text::ascii_lower(x) =~= text::ascii_lower(a).skip("## "@.len() as int));
    assert(text::ascii_lower(y) =~= text::ascii_lower(b).skip("## "@.len() as int));
    text::lemma_lower_of_trimmed(x, y);
}

/// Whether two texts have the same lines, but for titles of sections that are the same in
/// lower case. Inside a code fence there are no such titles.
pub open spec fn same_but_for_headings(a: Seq<Seq<char>>, b: Seq<Seq<char>>) -> bool {
    &&& a.len() == b.len()
    &&& forall|k: int|
        0 <= k < a.len() ==> #[trigger] a[k] == b[k] || (same_heading(a[k], b[k])
            && !reader_after(a, k as nat).fenced)
}

proof fn lemma_same_heading(st: ReaderView, a: Seq<char>, b: Seq<char>)
    requires
        same_heading(a, b),
        !st.fenced,
    ensures
        doc_step(st, a) == doc_step(st, b),
{
    reveal_strlit("## ");
    reveal_strlit("# ");
    reveal_strlit("```");
    assert(a.take(3)[0] == '#' && a.take(3)[1] == '#');
    assert(b.take(3)[0] == '#' && b.take(3)[1] == '#');
    assert(!text::has_prefix(a, "```"@)) by {
        assert("```"@[0] == '`');
        assert(a.take(3)[0] != '`');
    }
    assert(!text::has_prefix(b, "```"@)) by {
        assert("```"@[0] == '`');
        assert(b.take(3)[0] != '`');
    }
    assert(!text::has_prefix(a, "# "@)) by {
        assert(a.take(2)[1] == '#');
        assert("# "@[1] == ' ');
    }
    assert(!text::has_prefix(b, "# "@)) by {
        assert(b.take(2)[1] == '#');
        assert("# "@[1] == ' ');
    }
}

proof fn lemma_same_reader(a: Seq<Seq<char>>, b: Seq<Seq<char>>, n: nat)
    requires
        same_but_for_headings(a, b),
        n <= a.len(),
    ensures
        reader_after(a, n) == reader_after(b, n),
    decreases n,
{
    if n > 0 {
        lemma_same_reader(a, b, (n - 1) as nat);
        if a[n - 1] != b[n - 1] {
            lemma_same_heading(reader_after(a, (n - 1) as nat), a[n - 1], b[n - 1]);
        }
    }
}

/// Two documents that differ only in the titles of their sections, which are the same in
/// lower case, are read the same.
pub proof fn law_heading_case_does_not_matter(a: Seq<char>, b: Seq<char>)
    requires
        same_but_for_headings(text::lines(a), text::lines(b)),
    ensures
        design_doc(a) == design_doc(b),
{
    lemma_same_reader(text::lines(a), text::lines(b), text::lines(a).len());
}

// ---------------------------------------------------------------------------
// What reading a document is for
// ---------------------------------------------------------------------------

/// A bullet marks an item, with or without a checkbox, ticked or not, and is not part of it; a
/// line without one is no item.
pub proof fn law_bullets_mark_items(item: Seq<char>, line: Seq<char>)
    ensures
        after_bullet("- [ ] "@ + item) == Some(item),
        after_bullet("- [x] "@ + item) == Some(item),
        after_bullet("- [X] "@ + item) == Some(item),
        after_bullet("* [ ] "@ + item) == Some(item),
        after_bullet("* [x] "@ + item) == Some(item),
        after_bullet("* [X] "@ + item) == Some(item),
        !text::has_prefix(item, "["@) ==> after_bullet("- "@ + item) == Some(item) && after_bullet(
            "* "@ + item,
        ) == Some(item),
        after_bullet(line) is Some <==> text::has_prefix(line, "- "@) || text::has_prefix(
            line,
            "* "@,
        ),
{
    reveal_strlit("- [ ] ");
    reveal_strlit("- [x] ");
    reveal_strlit("- [X] ");
    reveal_strlit("* [ ] ");
    reveal_strlit("* [x] ");
    reveal_strlit("* [X] ");
    reveal_strlit("- ");
    reveal_strlit("* ");
    reveal_strlit("[");
    assert(("- [ ] "@ + item).take(6) =~= "- [ ] "@ && ("- [ ] "@ + item).skip(6) =~= item);
    assert(("- [x] "@ + item).take(6) =~= "- [x] "@ && ("- [x] "@ + item).skip(6) =~= item);
    assert(("- [X] "@ + item).take(6) =~= "- [X] "@ && ("- [X] "@ + item).skip(6) =~= item);
    assert(("* [ ] "@ + item).take(6) =~= "* [ ] "@ && ("* [ ] "@ + item).skip(6) =~= item);
    assert(("* [x] "@ + item).take(6) =~= "* [x] "@ && ("* [x] "@ + item).skip(6) =~= item);
    assert(("* [X] "@ + item).take(6) =~= "* [X] "@ && ("* [X] "@ + item).skip(6) =~= item);
    let a = "- "@ + item;
    let b = "* "@ + item;
    assert(a.take(2) =~= "- "@ && a.skip(2) =~= item);
    assert(b.take(2) =~= "* "@ && b.skip(2) =~= item);
    if !text::has_prefix(item, "["@) {
        if item.len() > 0 && item[0] == '[' {
            assert(item.take(1) =~= "["@);
        }
        if a.len() >= 6 {
            assert(a.take(6)[2] == item[0]);
            assert(b.take(6)[2] == item[0]);
        }
        assert("- [x] "@[2] == '[' && "- [X] "@[2] == '[' && "- [ ] "@[2] == '[');
        assert("* [x] "@[2] == '[' && "* [X] "@[2] == '[' && "* [ ] "@[2] == '[');
    }
    if line.len() >= 6 {
        assert(line.take(6).take(2) =~= line.take(2));
        assert("- [x] "@.take(2) =~= "- "@ && "- [X] "@.take(2) =~= "- "@ && "- [ ] "@.take(2)
            =~= "- "@);
        assert("* [x] "@.take(2) =~= "* "@ && "* [X] "@.take(2) =~= "* "@ && "* [ ] "@.take(2)
            =~= "* "@);
    }
}

/// In a plain list a line with a bullet is one more item, and a line without one that follows an
/// item goes on with it: the last item becomes the old one, a blank, and the trimmed line. A
/// blank line changes nothing, and neither does text before the first bullet.
pub proof fn law_wrapped_lines_are_kept(lines: Seq<Seq<char>>, n: nat)
    requires
        n < lines.len(),
    ensures
        ({
            let before = finished(items_after(lines, n));
            let after = finished(items_after(lines, n + 1));
            let line = text::trim(lines[n as int]);
            let bulleted = text::has_prefix(line, "- "@) || text::has_prefix(line, "* "@);
            &&& bulleted ==> after.len() == before.len() + 1 && after.drop_last() == before
                && after_bullet(line) == Some(after.last())
            &&& !bulleted && line.len() > 0 && before.len() > 0 ==> after.len() == before.len()
                && after.drop_last() == before.drop_last() && after.last() == before.last() + " "@
                + line
            &&& line.len() == 0 || (!bulleted && before.len() == 0) ==> after == before
        }),
{
    let line = text::trim(lines[n as int]);
    law_bullets_mark_items(line, line);
    reveal_strlit("- ");
    reveal_strlit("* ");
    let st = items_after(lines, n);
    lemma_current_is_last(lines, n);
    let before = finished(st);
    let after = finished(items_after(lines, n + 1));
    if line.len() > 0 {
        match after_bullet(line) {
            Some(item) => {
                assert(after.drop_last() =~= before);
            },
            None => {
                if st.current is Some {
                    assert(after.drop_last() =~= st.items);
                    assert(before.drop_last() =~= st.items);
                }
            },
        }
    }
}

proof fn lemma_current_is_last(lines: Seq<Seq<char>>, n: nat)
    requires
        n <= lines.len(),
    ensures
        items_after(lines, n).current is None ==> items_after(lines, n).items.len() == 0,
        nested_items_after(lines, n).current is None ==> nested_items_after(lines, n).items.len()
            == 0,
    decreases n,
{
    if n > 0 {
        lemma_current_is_last(lines, (n - 1) as nat);
    }
}

/// In a list of requirements a bullet that is indented belongs to the item above it, behind a
/// semicolon; any other bullet is one more item. A line without a bullet goes on with the item
/// that it follows. Nothing is lost behind the first bullet.
pub proof fn law_sub_bullets_are_kept(lines: Seq<Seq<char>>, n: nat)
    requires
        n < lines.len(),
    ensures
        ({
            let before = finished(nested_items_after(lines, n));
            let after = finished(nested_items_after(lines, n + 1));
            let line = text::trim(lines[n as int]);
            let item = after_bullet(line);
            let below = is_indented(lines[n as int]) && before.len() > 0;
            &&& item is Some && line.len() > 0 && !below ==> after.len() == before.len() + 1
                && after.drop_last() == before && after.last() == item->0
            &&& item is Some && line.len() > 0 && below ==> after.len() == before.len()
                && after.drop_last() == before.drop_last() && after.last() == before.last() + "; "@
                + item->0
            &&& item is None && line.len() > 0 && before.len() > 0 ==> after.len() == before.len()
                && after.drop_last() == before.drop_last() && after.last() == before.last() + " "@
                + line
            &&& line.len() == 0 || (item is None && before.len() == 0) ==> after == before
        }),
{
    let line = text::trim(lines[n as int]);
    let st = nested_items_after(lines, n);
    lemma_current_is_last(lines, n);
    let before = finished(st);
    let after = finished(nested_items_after(lines, n + 1));
    if line.len() > 0 {
        if st.current is Some {
            assert(before.drop_last() =~= st.items);
        }
        if after.len() > 0 {
            assert(after.drop_last() =~= nested_items_after(lines, n + 1).items);
        }
    }
}

/// A line is indented exactly where it starts with two white spaces, or with one that takes two
/// bytes or more.
pub proof fn law_indentation_is_two_blanks(line: Seq<char>)
    requires
        text::trim(line).len() > 0,
    ensures
        line.len() >= 2 && text::is_ws(line[0]) && text::is_ws(line[1]) ==> is_indented(line),
        !text::is_ws(line[0]) ==> !is_indented(line),
        line[0] == ' ' && line.len() >= 2 && !text::is_ws(line[1]) ==> !is_indented(line),
{
    let t = text::trim_start(line);
    let lead = line.take(line.len() - t.len());
    lemma_trim_start_len(line);
    lemma_utf8_len_at_least(lead);
    if line.len() > 0 && text::is_ws(line[0]) {
        lemma_trim_start_len(line.drop_first());
        assert(t == text::trim_start(line.drop_first()));
        if line.len() >= 2 && text::is_ws(line[1]) {
            lemma_trim_start_len(line.drop_first().drop_first());
            assert(lead.len() >= 2);
        } else if line.len() >= 2 {
            assert(text::trim_start(line.drop_first()) == line.drop_first());
            assert(lead =~= seq![line[0]]);
            reveal_with_fuel(text::utf8_len, 2);
            assert(lead.drop_last() =~= Seq::<char>::empty());
            assert(lead.last() == line[0]);
        }
    } else if line.len() > 0 {
        assert(lead =~= Seq::<char>::empty());
        reveal_with_fuel(text::utf8_len, 2);
    }
}

/// The block of a section goes to the field of its name and changes no other; a section that is
/// not known is kept under its name, unless it is blank.
pub proof fn law_sections_go_to_their_place(doc: DocView, block: Seq<char>, name: Seq<char>)
    ensures
        with_section(doc, Some("summary"@), block) == (DocView { summary: text::trim(block), ..doc }),
        with_section(doc, Some("acceptance criteria"@), block) == (DocView {
            acceptance_criteria: list_items(block),
            ..doc
        }),
        with_section(doc, Some("architecture"@), block) == (DocView {
            architecture: text::trim(block),
            ..doc
        }),
        with_section(doc, Some("open questions"@), block) == (DocView {
            open_questions: list_items(block),
            ..doc
        }),
        with_section(doc, Some("out of scope"@), block) == (DocView {
            out_of_scope: list_items(block),
            ..doc
        }),
        with_section(doc, Some("requirements"@), block) == (DocView {
            requirements: flat_requirements(block),
            requirement_groups: requirement_groups(block),
            ..doc
        }),
        with_section(doc, None, block) == doc,
        name != "summary"@ && name != "requirements"@ && name != "acceptance criteria"@ && name
            != "architecture"@ && name != "open questions"@ && name != "out of scope"@
            && text::trim(block).len() > 0 ==> with_section(doc, Some(name), block)
            == (DocView {
            unknown_sections: doc.unknown_sections.push((name, text::trim(block))),
            ..doc
        }),
{
    reveal_strlit("summary");
    reveal_strlit("requirements");
    reveal_strlit("acceptance criteria");
    reveal_strlit("architecture");
    reveal_strlit("open questions");
    reveal_strlit("out of scope");
    assert("summary"@.len() == 7 && "requirements"@.len() == 12 && "acceptance criteria"@.len()
        == 19);
    assert("architecture"@.len() == 12 && "open questions"@.len() == 14 && "out of scope"@.len()
        == 12);
    assert("requirements"@[0] != "architecture"@[0] && "requirements"@[0] != "out of scope"@[0]);
    assert("architecture"@[0] != "out of scope"@[0]);
}

/// Outside of code fences a first-level heading is the title, without the word before it, a
/// second-level heading closes the section before it, and any other line belongs to the section
/// that it stands in.
pub proof fn law_lines_are_read_by_their_heading(st: ReaderView, title: Seq<char>, line: Seq<char>)
    requires
        !st.fenced,
    ensures
        ({
            let t = text::trim(title);
            !text::has_prefix(t, "#"@) && !text::has_prefix(t, "Feature:"@) && !text::has_prefix(
                t,
                "feature:"@,
            ) ==> doc_step(st, "# "@ + title).doc.title == t && doc_step(st, "# "@ + title).section
                is None
        }),
        ({
            let next = doc_step(st, "## "@ + title);
            &&& next.section == Some(text::lower(text::trim(title)))
            &&& next.block.len() == 0
            &&& next.doc == with_section(st.doc, st.section, st.block)
        }),
        !text::has_prefix(line, "# "@) && !text::has_prefix(line, "## "@) && !text::has_prefix(
            line,
            "```"@,
        ) ==> doc_step(st, line) == (ReaderView { block: st.block + line + "\n"@, ..st }),
        text::has_prefix(line, "```"@) ==> doc_step(st, line) == (ReaderView {
            block: st.block + line + "\n"@,
            fenced: true,
            ..st
        }),
{
    reveal_strlit("# ");
    reveal_strlit("## ");
    reveal_strlit("```");
    let a = "# "@ + title;
    let b = "## "@ + title;
    assert(a.take(2) =~= "# "@ && a.skip(2) =~= title);
    assert(b.take(3) =~= "## "@ && b.skip(3) =~= title);
    if a.len() >= 3 {
        assert(a.take(3)[0] == '#');
        assert(a.take(3)[1] == ' ');
    }
    assert("```"@[0] == '`' && "## "@[1] == '#');
    assert(b.take(3)[0] == '#');
    assert(b.take(2)[1] == '#' && "# "@[1] == ' ');
}

/// The title of a feature is told without the word `Feature:`.
pub proof fn law_feature_titles_lose_the_word(name: Seq<char>)
    ensures
        title_of("# Feature:"@ + name) == Some(text::trim(name)),
{
    reveal_strlit("# Feature:");
    reveal_strlit("Feature:");
    reveal_strlit("# ");
    reveal_strlit("#");
    let line = "# Feature:"@ + name;
    assert(line.take(2) =~= "# "@);
    let tail = line.skip(2);
    assert(tail =~= "Feature:"@ + name);
    assert(tail[0] == 'F');
    assert(text::trim_start(tail) == tail);
    lemma_trim_end_of_sum("Feature:"@, name);
    let rest = text::trim(tail);
    assert("Feature:"@.last() == ':');
    assert(rest == "Feature:"@ + text::trim_end(name));
    assert(rest.take(1)[0] == 'F');
    assert("#"@[0] == '#');
    assert(rest.take(8) =~= "Feature:"@);
    assert(rest.skip(8) =~= text::trim_end(name));
    lemma_trim_of_trim_end(name);
}

proof fn lemma_trim_end_of_sum(a: Seq<char>, b: Seq<char>)
    requires
        a.len() > 0,
        !text::is_ws(a.last()),
    ensures
        text::trim_end(a + b) == a + text::trim_end(b),
    decreases b.len(),
{
    let s = a + b;
    if b.len() == 0 {
        assert(s =~= a);
        assert(a + text::trim_end(b) =~= a);
    } else if text::is_ws(b.last()) {
        assert(s.last() == b.last());
        assert(s.drop_last() =~= a + b.drop_last());
        lemma_trim_end_of_sum(a, b.drop_last());
    } else {
        assert(s.last() == b.last());
    }
}

proof fn lemma_trim_of_trim_end(s: Seq<char>)
    ensures
        text::trim(text::trim_end(s)) == text::trim(s),
    decreases s.len(),
{
    if s.len() > 0 && text::is_ws(s.last()) {
        lemma_trim_of_trim_end(s.drop_last());
        lemma_trim_drop_last(s);
    }
}

proof fn lemma_trim_drop_last(s: Seq<char>)
    requires
        s.len() > 0,
        text::is_ws(s.last()),
    ensures
        text::trim(s.drop_last()) == text::trim(s),
    decreases s.len(),
{
    if text::is_ws(s[0]) {
        if s.len() > 1 {
            assert(s.drop_first().last() == s.last());
            lemma_trim_drop_last(s.drop_first());
            assert(s.drop_last().drop_first() =~= s.drop_first().drop_last());
        } else {
            assert(s.drop_last() =~= Seq::<char>::empty());
            assert(s.drop_first() =~= Seq::<char>::empty());
        }
    } else {
        assert(text::trim_start(s) == s);
        assert(s.len() > 1);
        assert(s.drop_last()[0] == s[0]);
        assert(text::trim_start(s.drop_last()) == s.drop_last());
    }
}

/// A layer is named by what stands between the colon and the bracket, and worked on as the remark
/// in brackets says first: in parallel or one after the other.
pub proof fn law_layers_have_a_name_and_a_hint(number: Seq<char>, name: Seq<char>, remark: Seq<char>)
    requires
        !number.contains(':'),
        !name.contains('('),
        name.len() > 0 && !text::is_ws(name[0]) && !text::is_ws(name.last()),
    ensures
        ({
            let parallel = layer_header(number + ": "@ + name + " (parallel"@ + remark + ")"@);
            let sequential = layer_header(number + ": "@ + name + " (sequential"@ + remark + ")"@);
            &&& parallel.0 == name
            &&& parallel.1 == "parallel"@
            &&& sequential.0 == name
            &&& sequential.1 == "sequential"@
        }),
        layer_header(number + ": "@ + name) == (name, Seq::<char>::empty()),
{
    reveal_strlit(": ");
    assert(" (parallel"@ =~= " ("@ + "parallel"@ && " (sequential"@ =~= " ("@ + "sequential"@) by {
        reveal_strlit(" (");
        reveal_strlit("parallel");
        reveal_strlit("sequential");
        reveal_strlit(" (parallel");
        reveal_strlit(" (sequential");
    }
    lemma_layer(number, name, " (parallel"@, "parallel"@, remark);
    lemma_layer(number, name, " (sequential"@, "sequential"@, remark);
    let header = number + ": "@ + name;
    lemma_first_colon(number, " "@ + name);
    reveal_strlit(" ");
    assert(header =~= number + seq![':'] + (" "@ + name));
    assert(header.skip(number.len() as int + 1) =~= " "@ + name);
    assert((" "@ + name).drop_first() =~= name);
    assert((" "@ + name)[0] == ' ');
    assert(text::trim_start(" "@ + name) == text::trim_start(name));
    lemma_trim_keeps(name);
    text::lemma_find_char(name, '(');
    assert(text::find_char(name, '(') == name.len()) by {
        let k = text::find_char(name, '(');
        if k < name.len() {
            assert(name[k as int] == '(');
            assert(name.contains('('));
        }
    }
}

proof fn lemma_first_colon(a: Seq<char>, b: Seq<char>)
    requires
        !a.contains(':'),
    ensures
        text::find_char(a + seq![':'] + b, ':') == a.len(),
{
    let s = a + seq![':'] + b;
    text::lemma_find_char(s, ':');
    let k = text::find_char(s, ':') as int;
    assert(s[a.len() as int] == ':');
    if k < a.len() {
        assert(s[k] == a[k]);
        assert(a.contains(a[k]));
    }
}

proof fn lemma_layer(
    number: Seq<char>,
    name: Seq<char>,
    opening: Seq<char>,
    hint: Seq<char>,
    remark: Seq<char>,
)
    requires
        !number.contains(':'),
        !name.contains('('),
        name.len() > 0 && !text::is_ws(name[0]) && !text::is_ws(name.last()),
        opening == " ("@ + hint,
        hint == "parallel"@ || hint == "sequential"@,
    ensures
        layer_header(number + ": "@ + name + opening + remark + ")"@) == (name, hint),
{
    reveal_strlit(": ");
    reveal_strlit(" (");
    reveal_strlit(")");
    reveal_strlit(" ");
    reveal_strlit("parallel");
    reveal_strlit("sequential");
    let header = number + ": "@ + name + opening + remark + ")"@;
    let body = name + (" ("@ + hint + remark + ")"@);
    assert(header =~= number + ": "@ + body);
    assert(body.last() == ')');
    lemma_rest_of_header(number, body, header);
    let rest = header_rest(header);
    assert(rest =~= name + (" ("@ + (hint + remark + ")"@)));
    lemma_name_before_bracket(name, hint + remark + ")"@, rest);
    let inside = hint + remark + ")"@;
    lemma_hint_of(hint, remark + ")"@);
    assert(inside =~= hint + (remark + ")"@));
}

proof fn lemma_rest_of_header(number: Seq<char>, body: Seq<char>, header: Seq<char>)
    requires
        !number.contains(':'),
        header == number + ": "@ + body,
        body.len() > 0 && !text::is_ws(body[0]) && !text::is_ws(body.last()),
    ensures
        header_rest(header) == body,
{
    reveal_strlit(": ");
    let behind = seq![' '] + body;
    assert(header =~= number + seq![':'] + behind);
    lemma_first_colon(number, behind);
    assert(header.skip(number.len() as int + 1) =~= behind);
    assert(behind.drop_first() =~= body);
    assert(behind[0] == ' ');
    assert(text::trim_start(body) == body);
    assert(text::trim_start(behind) == body);
    assert(text::trim_end(body) == body);
}

proof fn lemma_name_before_bracket(name: Seq<char>, inside: Seq<char>, rest: Seq<char>)
    requires
        !name.contains('('),
        name.len() > 0 && !text::is_ws(name[0]) && !text::is_ws(name.last()),
        rest == name + (" ("@ + inside),
    ensures
        text::find_char(rest, '(') == name.len() + 1,
        text::trim(rest.take(name.len() as int + 1)) == name,
        rest.skip(name.len() as int + 2) == inside,
{
    reveal_strlit(" (");
    text::lemma_find_char(rest, '(');
    let p = text::find_char(rest, '(') as int;
    assert(rest[name.len() as int + 1] == '(');
    if p < name.len() {
        assert(rest[p] == name[p]);
        assert(name.contains(name[p]));
    } else if p == name.len() {
        assert(rest[p] == ' ');
    }
    let t = rest.take(name.len() as int + 1);
    assert(t =~= name.push(' '));
    assert(t.drop_last() =~= name);
    assert(text::trim_start(t) == t);
    assert(text::trim_end(name) == name);
    assert(text::trim_end(t) == text::trim_end(name));
    assert(rest.skip(name.len() as int + 2) =~= inside);
}

proof fn lemma_hint_of(hint: Seq<char>, tail: Seq<char>)
    requires
        hint == "parallel"@ || hint == "sequential"@,
    ensures
        hint_of(text::trim(trim_closing(hint + tail))) == hint,
{
    reveal_strlit("parallel");
    reveal_strlit("sequential");
    lemma_trim_closing_keeps(hint, tail);
    let bare = trim_closing(hint + tail);
    let rest = choose|rest: Seq<char>| bare == hint + rest;
    assert(bare[0] == hint[0]);
    assert(text::trim_start(bare) == bare);
    lemma_trim_end_of_sum(hint, rest);
    let t = text::trim(bare);
    assert(t == hint + text::trim_end(rest));
    assert(t.take(hint.len() as int) =~= hint);
    if hint == "sequential"@ && t.len() >= 8 {
        assert(t.take(8)[0] == 's');
        assert("parallel"@[0] == 'p');
    }
}

proof fn lemma_trim_closing_keeps(hint: Seq<char>, tail: Seq<char>)
    requires
        hint.len() > 0,
        hint.last() != ')',
    ensures
        exists|rest: Seq<char>| trim_closing(hint + tail) == hint + rest,
    decreases tail.len(),
{
    let s = hint + tail;
    if tail.len() == 0 {
        assert(s =~= hint);
        assert(trim_closing(s) == hint + Seq::<char>::empty()) by {
            assert(hint + Seq::<char>::empty() =~= hint);
        }
    } else if tail.last() == ')' {
        assert(s.last() == ')');
        assert(s.drop_last() =~= hint + tail.drop_last());
        lemma_trim_closing_keeps(hint, tail.drop_last());
    } else {
        assert(s.last() == tail.last());
        assert(trim_closing(s) == hint + tail);
    }
}

/// A header of a layer or of a phase begins a group, and the lines below it belong to it.
pub proof fn law_headers_begin_groups(lines: Seq<Seq<char>>, n: nat, rest: Seq<char>)
    requires
        n < lines.len(),
        rest.len() > 0 && !text::is_ws(rest[0]) && !text::is_ws(rest.last()),
    ensures
        ({
            let before = groups_after(lines, n);
            let after = groups_after(lines, n + 1);
            let line = lines[n as int];
            &&& line == "### Layer "@ + rest ==> after.header == Some("Layer "@ + rest)
            &&& line == "### Phase "@ + rest ==> after.header == Some("Phase "@ + rest)
            &&& line == "### Layer "@ + rest || line == "### Phase "@ + rest ==> all_groups(
                after,
            ).len() == all_groups(before).len() + 1 && all_groups(after).drop_last() == all_groups(
                before,
            ) && after.chunk.len() == 0
            &&& !text::has_prefix(line, "### "@) ==> after.header == before.header && after.groups
                == before.groups && after.chunk == before.chunk + line + "\n"@
        }),
{
    let before = groups_after(lines, n);
    let after = groups_after(lines, n + 1);
    let line = lines[n as int];
    reveal_strlit("### Layer ");
    reveal_strlit("### Phase ");
    reveal_strlit("### ");
    reveal_strlit("Layer ");
    reveal_strlit("Phase ");
    if line == "### Layer "@ + rest || line == "### Phase "@ + rest {
        assert(line.take(4) =~= "### "@);
        let tail = line.skip(4);
        let word = if line == "### Layer "@ + rest {
            "Layer "@
        } else {
            "Phase "@
        };
        assert(tail =~= word + rest);
        assert(tail[0] == word[0]);
        assert(tail.last() == rest.last());
        lemma_trim_keeps(tail);
        assert(tail.take(6) =~= word);
        assert("### Layer "@[4] != "### Phase "@[4]);
        assert(line[4] == word[0]);
        assert(all_groups(after).drop_last() =~= all_groups(before));
    }
}

proof fn lemma_grouped_items(groups: Seq<GroupView>, n: nat, g: int, k: int)
    requires
        0 <= g < n <= groups.len(),
        0 <= k < groups[g].items.len(),
    ensures
        text::has_name(grouped_items(groups, n), groups[g].items[k]),
    decreases n,
{
    let head = grouped_items(groups, (n - 1) as nat);
    let all = grouped_items(groups, n);
    if g < n - 1 {
        lemma_grouped_items(groups, (n - 1) as nat, g, k);
        let i = choose|i: int| 0 <= i < head.len() && #[trigger] head[i] == groups[g].items[k];
        assert(all[i] == groups[g].items[k]);
    } else {
        assert(all[head.len() + k] == groups[g].items[k]);
    }
}

/// Every requirement of a group is a requirement of the document, and a document without groups
/// has the items of its list.
pub proof fn law_grouped_requirements_count(block: Seq<char>, g: int, k: int)
    ensures
        ({
            let groups = requirement_groups(block);
            &&& 0 <= g < groups.len() && 0 <= k < groups[g].items.len() ==> text::has_name(
                flat_requirements(block),
                groups[g].items[k],
            )
            &&& groups.len() == 0 ==> flat_requirements(block) == nested_list_items(block)
        }),
{
    let groups = requirement_groups(block);
    if 0 <= g < groups.len() && 0 <= k < groups[g].items.len() {
        lemma_grouped_items(groups, groups.len(), g, k);
    }
}

/// What a document lacks is warned of, and nothing else.
pub proof fn law_missing_sections_are_warned_of(doc: DocView)
    ensures
        text::has_name(doc_warnings(doc), "Design doc has no ## Summary section"@)
            <==> doc.summary.len() == 0,
        text::has_name(doc_warnings(doc), "Design doc has no ## Requirements section"@)
            <==> doc.requirements.len() == 0,
        text::has_name(doc_warnings(doc), "Design doc has no ## Acceptance Criteria section"@)
            <==> doc.acceptance_criteria.len() == 0,
{
    reveal_strlit("Design doc has no ## Summary section");
    reveal_strlit("Design doc has no ## Requirements section");
    reveal_strlit("Design doc has no ## Acceptance Criteria section");
    assert("Design doc has no ## Summary section"@.len() == 36);
    assert("Design doc has no ## Requirements section"@.len() == 41);
    assert("Design doc has no ## Acceptance Criteria section"@.len() == 48);
    let w = doc_warnings(doc);
    let b: int = if doc.summary.len() == 0 {
        1
    } else {
        0
    };
    let c = b + if doc.requirements.len() == 0 {
        1int
    } else {
        0
    };
    if doc.summary.len() == 0 {
        assert(w[0] == "Design doc has no ## Summary section"@);
    }
    if doc.requirements.len() == 0 {
        assert(w[b] == "Design doc has no ## Requirements section"@);
    }
    if doc.acceptance_criteria.len() == 0 {
        assert(w[c] == "Design doc has no ## Acceptance Criteria section"@);
    }
}

proof fn lemma_bullet_lines(acc: Seq<char>, bullet: Seq<char>, items: Seq<Seq<char>>, n: nat, k: int)
    requires
        n <= items.len(),
    ensures
        text::contains(with_bullets(acc, bullet, items, n), acc),
        0 <= k < n ==> text::contains(
            with_bullets(acc, bullet, items, n),
            bullet + items[k] + "\n"@,
        ),
    decreases n,
{
    text::lemma_contains_self(acc);
    if n > 0 {
        lemma_bullet_lines(acc, bullet, items, (n - 1) as nat, k);
        let head = with_bullets(acc, bullet, items, (n - 1) as nat);
        let last = bullet + items[n - 1] + "\n"@;
        text::lemma_regroup(head, bullet, items[n - 1], "\n"@, bullet);
        text::lemma_contains_self(last);
        text::lemma_contains_second(head, last, last);
        text::lemma_contains_first(head, last, acc);
        if 0 <= k < n - 1 {
            text::lemma_contains_first(head, last, bullet + items[k] + "\n"@);
        }
    }
}

proof fn lemma_headed_list(
    acc: Seq<char>,
    heading: Seq<char>,
    bullet: Seq<char>,
    items: Seq<Seq<char>>,
    k: int,
)
    ensures
        text::contains(with_headed_list(acc, heading, bullet, items), acc),
        0 <= k < items.len() ==> text::contains(
            with_headed_list(acc, heading, bullet, items),
            bullet + items[k] + "\n"@,
        ),
{
    text::lemma_contains_self(acc);
    if items.len() > 0 {
        let list = with_bullets(acc + heading, bullet, items, items.len());
        lemma_bullet_lines(acc + heading, bullet, items, items.len(), k);
        text::lemma_contains_first(acc, heading, acc);
        text::lemma_contains_transitive(list, acc + heading, acc);
        text::lemma_contains_first(list, "\n"@, acc);
        if 0 <= k < items.len() {
            text::lemma_contains_first(list, "\n"@, bullet + items[k] + "\n"@);
        }
    }
}

proof fn lemma_headed_text(acc: Seq<char>, heading: Seq<char>, body: Seq<char>)
    ensures
        text::contains(with_headed_text(acc, heading, body), acc),
        text::contains(with_headed_text(acc, heading, body), body),
{
    text::lemma_contains_self(acc);
    text::lemma_contains_self(body);
    if body.len() > 0 {
        text::lemma_contains_first(acc, heading, acc);
        text::lemma_contains_first(acc + heading, body, acc);
        text::lemma_contains_first(acc + heading + body, "\n\n"@, acc);
        text::lemma_contains_second(acc + heading, body, body);
        text::lemma_contains_first(acc + heading + body, "\n\n"@, body);
    } else {
        assert(acc.subrange(0, 0) =~= body);
        assert(text::occurs_at(acc, body, 0));
    }
}

proof fn lemma_unknown(acc: Seq<char>, sections: Seq<(Seq<char>, Seq<char>)>, n: nat, k: int)
    requires
        n <= sections.len(),
    ensures
        text::contains(with_unknown(acc, sections, n), acc),
        0 <= k < n ==> text::contains(
            with_unknown(acc, sections, n),
            "### "@ + sections[k].0 + "\n\n"@ + sections[k].1,
        ),
    decreases n,
{
    text::lemma_contains_self(acc);
    if n > 0 {
        lemma_unknown(acc, sections, (n - 1) as nat, k);
        let head = with_unknown(acc, sections, (n - 1) as nat);
        let s = sections[n - 1];
        let last = "### "@ + s.0 + "\n\n"@ + s.1;
        text::lemma_regroup(head, "### "@, s.0, "\n\n"@, s.1);
        text::lemma_contains_self(last);
        text::lemma_contains_second(head, last, last);
        text::lemma_contains_first(head + last, "\n\n"@, last);
        text::lemma_contains_first(head, last, acc);
        text::lemma_contains_first(head + last, "\n\n"@, acc);
        if 0 <= k < n - 1 {
            let p = "### "@ + sections[k].0 + "\n\n"@ + sections[k].1;
            text::lemma_contains_first(head, last, p);
            text::lemma_contains_first(head + last, "\n\n"@, p);
        }
    }
}

/// The section of a prompt tells all that a document states: the summary, the architecture, and
/// every requirement, criterion, exclusion and section that is not known.
pub proof fn law_prompt_section_tells_the_document(doc: DocView, k: int)
    ensures
        text::contains(design_section(doc), doc.summary),
        text::contains(design_section(doc), doc.architecture),
        0 <= k < doc.requirements.len() ==> text::contains(
            design_section(doc),
            "- "@ + doc.requirements[k] + "\n"@,
        ),
        0 <= k < doc.acceptance_criteria.len() ==> text::contains(
            design_section(doc),
            "- [ ] "@ + doc.acceptance_criteria[k] + "\n"@,
        ),
        0 <= k < doc.out_of_scope.len() ==> text::contains(
            design_section(doc),
            "- "@ + doc.out_of_scope[k] + "\n"@,
        ),
        0 <= k < doc.unknown_sections.len() ==> text::contains(
            design_section(doc),
            "### "@ + doc.unknown_sections[k].0 + "\n\n"@ + doc.unknown_sections[k].1,
        ),
{
    let a = with_headed_text("\n## Design Specification\n\n"@, "### Summary\n\n"@, doc.summary);
    let b = with_headed_list(a, "### Requirements\n\n"@, "- "@, doc.requirements);
    let c = with_headed_list(
        b,
        "### Acceptance Criteria\n\n"@,
        "- [ ] "@,
        doc.acceptance_criteria,
    );
    let d = with_headed_text(c, "### Architecture\n\n"@, doc.architecture);
    let e = with_headed_list(d, "### Out of Scope\n\n"@, "- "@, doc.out_of_scope);
    let f = design_section(doc);
    lemma_headed_text("\n## Design Specification\n\n"@, "### Summary\n\n"@, doc.summary);
    lemma_headed_list(a, "### Requirements\n\n"@, "- "@, doc.requirements, k);
    lemma_headed_list(
        b,
        "### Acceptance Criteria\n\n"@,
        "- [ ] "@,
        doc.acceptance_criteria,
        k,
    );
    lemma_headed_text(c, "### Architecture\n\n"@, doc.architecture);
    lemma_headed_list(d, "### Out of Scope\n\n"@, "- "@, doc.out_of_scope, k);
    lemma_unknown(e, doc.unknown_sections, doc.unknown_sections.len(), k);
    text::lemma_contains_transitive(f, e, d);
    text::lemma_contains_transitive(f, d, c);
    text::lemma_contains_transitive(f, c, b);
    text::lemma_contains_transitive(f, b, a);
    text::lemma_contains_transitive(f, a, doc.summary);
    text::lemma_contains_transitive(f, d, doc.architecture);
    if 0 <= k < doc.requirements.len() {
        text::lemma_contains_transitive(f, b, "- "@ + doc.requirements[k] + "\n"@);
    }
    if 0 <= k < doc.acceptance_criteria.len() {
        text::lemma_contains_transitive(f, c, "- [ ] "@ + doc.acceptance_criteria[k] + "\n"@);
    }
    if 0 <= k < doc.out_of_scope.len() {
        text::lemma_contains_transitive(f, e, "- "@ + doc.out_of_scope[k] + "\n"@);
    }
}

proof fn lemma_questions(acc: Seq<char>, questions: Seq<Seq<char>>, n: nat, k: int)
    requires
        0 <= k < n <= questions.len(),
    ensures
        text::contains(
            with_questions(acc, questions, n),
            text::dec((k + 1) as nat) + ". "@ + questions[k] + "\n"@,
        ),
    decreases n,
{
    let head = with_questions(acc, questions, (n - 1) as nat);
    let last = text::dec(n) + ". "@ + questions[n - 1] + "\n"@;
    text::lemma_regroup(head, text::dec(n), ". "@, questions[n - 1], "\n"@);
    text::lemma_contains_self(last);
    text::lemma_contains_second(head, last, last);
    if k < n - 1 {
        lemma_questions(acc, questions, (n - 1) as nat, k);
        text::lemma_contains_first(
            head,
            last,
            text::dec((k + 1) as nat) + ". "@ + questions[k] + "\n"@,
        );
    }
}

/// Open questions are put to the agent, every one under its number, exactly where there are any.
pub proof fn law_open_questions_are_escalated(questions: Seq<Seq<char>>, k: int)
    ensures
        escalation(questions) is Some <==> questions.len() > 0,
        0 <= k < questions.len() ==> text::contains(
            escalation(questions)->0,
            text::dec((k + 1) as nat) + ". "@ + questions[k] + "\n"@,
        ),
{
    if 0 <= k < questions.len() {
        lemma_questions(ESCALATION_HEAD@, questions, questions.len(), k);
        text::lemma_contains_first(
            with_questions(ESCALATION_HEAD@, questions, questions.len()),
            ESCALATION_FOOT@,
            text::dec((k + 1) as nat) + ". "@ + questions[k] + "\n"@,
        );
    }
}

/// Reading a list goes line by line: a block with one more line has one more item where the line is
/// a bullet, and a longer last item where it is not.
pub proof fn law_lists_are_read_line_by_line(
    block: &str,
    longer: &str,
    line: Seq<char>,
    before: Vec<String>,
    after: Vec<String>,
)
    requires
        call_ensures(parse_list_items, (block,), before),
        call_ensures(parse_list_items, (longer,), after),
        text::whole_lines(block@),
        !line.contains('\n'),
        line.len() > 0 ==> line.last() != '\r',
        longer@ == block@ + line + seq!['\n'],
    ensures
        ({
            let trimmed = text::trim(line);
            let bulleted = text::has_prefix(trimmed, "- "@) || text::has_prefix(trimmed, "* "@);
            let old_items = text::strs(before@);
            let new_items = text::strs(after@);
            &&& bulleted ==> new_items.len() == old_items.len() + 1 && new_items.drop_last()
                == old_items && after_bullet(trimmed) == Some(new_items.last())
            &&& !bulleted && trimmed.len() > 0 && old_items.len() > 0 ==> new_items.len()
                == old_items.len() && new_items.drop_last() == old_items.drop_last()
                && new_items.last() == old_items.last() + " "@ + trimmed
            &&& trimmed.len() == 0 || (!bulleted && old_items.len() == 0) ==> new_items == old_items
        }),
{
    text::lemma_lines_push(block@, line);
    let lines = text::lines(longer@);
    let n = text::lines(block@).len();
    assert(lines == text::lines(block@).push(line));
    lemma_items_of_beginning(text::lines(block@), lines, n);
    law_wrapped_lines_are_kept(lines, n);
}

proof fn lemma_items_of_beginning(a: Seq<Seq<char>>, b: Seq<Seq<char>>, n: nat)
    requires
        n <= a.len() <= b.len(),
        forall|i: int| 0 <= i < a.len() ==> a[i] == #[trigger] b[i],
    ensures
        items_after(a, n) == items_after(b, n),
    decreases n,
{
    if n > 0 {
        lemma_items_of_beginning(a, b, (n - 1) as nat);
        assert(a[n - 1] == b[n - 1]);
    }
}

} // verus!
