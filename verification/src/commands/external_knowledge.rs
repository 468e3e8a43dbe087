//! Knowledge pages of other repositories: searching, showing and listing them.

use crate::json;
use crate::json::{quote, write_list, write_object, write_texts, Field};
use crate::text;
use crate::text::{
    contains_name, contains_str, dec_u64, join_strs, own, pad_before_str, pad_str, repeat_char, str_le,
    to_lower,
};
use vstd::prelude::*;

verus! {

// ---------------------------------------------------------------------------
// Pages
// ---------------------------------------------------------------------------

/// Where a page has something from.
#[derive(Debug, Clone, PartialEq)]
pub struct Source {
    pub url: String,
    pub title: String,
    pub accessed_at: Option<String>,
}

/// What a page says of itself.
#[derive(Debug, Clone, PartialEq)]
pub struct Frontmatter {
    pub title: String,
    pub tags: Vec<String>,
    pub sources: Vec<Source>,
    pub contributors: Vec<String>,
    pub created: String,
    pub updated: String,
}

/// A page.
#[derive(Debug, Clone, PartialEq)]
pub struct PageInfo {
    pub slug: String,
    pub frontmatter: Frontmatter,
}

/// A place in a page that a search has found, with the lines around it.
#[derive(Debug, Clone, PartialEq)]
pub struct SearchMatch {
    pub slug: String,
    pub line_number: u64,
    pub context_lines: Vec<(u64, String)>,
}

/// What pages are asked for: with a tag, by a contributor, updated since a date.
#[derive(Clone, Copy)]
pub struct Filters<'a> {
    pub tag: Option<&'a str>,
    pub contributor: Option<&'a str>,
    pub since: Option<&'a str>,
}

/// Whether a page passes the filters. Dates are compared as texts.
pub open spec fn passes(fm: Frontmatter, filters: Filters) -> bool {
    &&& match filters.tag {
        Some(tag) => text::has_name(text::strs(fm.tags@), tag@),
        None => true,
    }
    &&& match filters.contributor {
        Some(name) => text::has_name(text::strs(fm.contributors@), name@),
        None => true,
    }
    &&& match filters.since {
        Some(date) => text::lex_le(date@, fm.updated@),
        None => true,
    }
}

/// Tests whether a page passes the filters.
pub fn page_passes(fm: &Frontmatter, filters: &Filters) -> (r: bool)
    ensures
        r == passes(*fm, *filters),
{
    if let Some(tag) = filters.tag {
        if !contains_name(&fm.tags, tag) {
            return false;
        }
    }
    if let Some(name) = filters.contributor {
        if !contains_name(&fm.contributors, name) {
            return false;
        }
    }
    if let Some(date) = filters.since {
        if !str_le(date, fm.updated.as_str()) {
            return false;
        }
    }
    true
}

// ---------------------------------------------------------------------------
// Searching
// ---------------------------------------------------------------------------

/// What a search looks through.
#[derive(Debug, Clone, Copy, PartialEq, Eq, Structural)]
pub enum SearchKind {
    /// The sources that pages cite.
    Sources,
    /// The text of the pages.
    Content,
}

/// Tells what a search looks through: the sources where a domain is given, and the
/// text otherwise, which takes a query.
pub fn search_kind(query: Option<&str>, source_domain: Option<&str>) -> (r: Result<
    SearchKind,
    String,
>)
    ensures
        match r {
            Ok(SearchKind::Sources) => source_domain is Some,
            Ok(SearchKind::Content) => source_domain is None && query is Some,
            Err(message) => source_domain is None && query is None && message@
                == "Provide a search query or --source domain"@,
        },
{
    if source_domain.is_some() {
        return Ok(SearchKind::Sources);
    }
    if query.is_some() {
        return Ok(SearchKind::Content);
    }
    Err(own("Provide a search query or --source domain"))
}

/// The first line of what is printed for people.
pub open spec fn heading(label: Seq<char>) -> Seq<char> {
    "--- Results from "@ + label + " ---\n\n"@
}

/// The last line of what is printed for people.
pub open spec fn closing() -> Seq<char> {
    "\n--- End external results ---\n"@
}

pub(crate) fn start(label: &str) -> (r: String)
    ensures
        r@ == heading(label@),
{
    let mut out = own("--- Results from ");
    out.append(label);
    out.append(" ---\n\n");
    out
}

/// Whether a page that cites the domain is kept: where a query is given too, its text
/// must hold it, whatever the case. A page that cannot be read is not kept.
pub open spec fn keeps_page(content: Option<Seq<char>>, query: Option<Seq<char>>) -> bool {
    match query {
        Some(q) => match content {
            Some(c) => text::contains(text::lower(c), text::lower(q)),
            None => false,
        },
        None => true,
    }
}

/// The pages that are kept, among the first `n`.
pub open spec fn kept_pages(
    pages: Seq<PageInfo>,
    contents: Seq<Option<String>>,
    query: Option<Seq<char>>,
    n: nat,
) -> Seq<PageInfo>
    decreases n,
{
    if n == 0 {
        Seq::empty()
    } else {
        let head = kept_pages(pages, contents, query, (n - 1) as nat);
        if keeps_page(text::opt_str(contents[n - 1]), query) {
            head.push(pages[n - 1])
        } else {
            head
        }
    }
}

/// The lines on the sources of a page that belong to the domain, among the first `n`.
pub open spec fn with_sources(acc: Seq<char>, sources: Seq<Source>, domain: Seq<char>, n: nat) -> Seq<
    char,
>
    decreases n,
{
    if n == 0 {
        acc
    } else {
        let head = with_sources(acc, sources, domain, (n - 1) as nat);
        let s = sources[n - 1];
        if text::contains(text::lower(s.url@), text::lower(domain)) {
            let line = head + "  "@ + s.url@ + " ("@ + s.title@ + ")"@;
            match s.accessed_at {
                Some(when) => line + " [accessed: "@ + when@ + "]"@ + "\n"@,
                None => line + "\n"@,
            }
        } else {
            head
        }
    }
}

/// The first `n` pages with their sources.
pub open spec fn with_cited(acc: Seq<char>, pages: Seq<PageInfo>, domain: Seq<char>, n: nat) -> Seq<
    char,
>
    decreases n,
{
    if n == 0 {
        acc
    } else {
        let p = pages[n - 1];
        with_sources(
            with_cited(acc, pages, domain, (n - 1) as nat) + p.slug@ + ".md — "@
                + p.frontmatter.title@ + "\n"@,
            p.frontmatter.sources@,
            domain,
            p.frontmatter.sources@.len(),
        )
    }
}

/// The slugs of the first `n` pages, each on a line.
pub open spec fn with_slugs(acc: Seq<char>, pages: Seq<PageInfo>, n: nat) -> Seq<char>
    decreases n,
{
    if n == 0 {
        acc
    } else {
        with_slugs(acc, pages, (n - 1) as nat) + pages[n - 1].slug@ + "\n"@
    }
}

/// A source in JSON. The time of access comes only where it is asked for.
pub open spec fn source_json(s: Source, with_access: bool) -> Seq<char> {
    let fields = seq![
        ("url"@, json::json_quoted(s.url@)),
        ("title"@, json::json_quoted(s.title@)),
    ];
    json::object_of(
        match s.accessed_at {
            Some(when) => if with_access {
                fields.push(("accessed_at"@, json::json_quoted(when@)))
            } else {
                fields
            },
            None => fields,
        },
    )
}

/// The sources of a page in JSON.
pub open spec fn sources_json(sources: Seq<Source>, with_access: bool) -> Seq<char> {
    json::list_of(Seq::new(sources.len(), |i: int| source_json(sources[i], with_access)))
}

/// A page that cites a domain, in JSON.
pub open spec fn cited_json(p: PageInfo, label: Seq<char>) -> Seq<char> {
    json::object_of(
        seq![
            ("slug"@, json::json_quoted(p.slug@)),
            ("title"@, json::json_quoted(p.frontmatter.title@)),
            ("tags"@, json::list_of_texts(text::strs(p.frontmatter.tags@))),
            ("sources"@, sources_json(p.frontmatter.sources@, false)),
            ("source"@, json::json_quoted(label)),
        ],
    )
}

/// Pages that cite a domain, in JSON.
pub open spec fn all_cited_json(pages: Seq<PageInfo>, label: Seq<char>) -> Seq<char> {
    json::list_of(Seq::new(pages.len(), |i: int| cited_json(pages[i], label)))
}

/// JSON as it is printed, or an empty list where it cannot be laid out.
pub open spec fn printed_list(document: Seq<char>) -> Seq<char> {
    match json::json_pretty(document) {
        Some(laid_out) => laid_out + "\n"@,
        None => "[]"@ + "\n"@,
    }
}

/// What a search of sources prints, in the three forms.
pub open spec fn sources_text(
    label: Seq<char>,
    domain: Seq<char>,
    pages: Seq<PageInfo>,
    as_json: bool,
    quiet: bool,
) -> Seq<char> {
    if as_json {
        printed_list(all_cited_json(pages, label))
    } else if !quiet {
        (if pages.len() == 0 {
            heading(label) + "No knowledge pages cite \""@ + domain + "\".\n"@
        } else {
            with_cited(heading(label), pages, domain, pages.len())
        }) + closing()
    } else {
        with_slugs(""@, pages, pages.len())
    }
}

fn write_source(s: &Source, with_access: bool) -> (r: String)
    ensures
        r@ == source_json(*s, with_access),
{
    let mut fields = vec![
        Field { key: "url", value: quote(s.url.as_str()) },
        Field { key: "title", value: quote(s.title.as_str()) },
    ];
    assert(json::field_views(fields@) =~= seq![
        ("url"@, json::json_quoted(s.url@)),
        ("title"@, json::json_quoted(s.title@)),
    ]);
    if with_access {
        if let Some(when) = &s.accessed_at {
            let ghost before = fields@;
            fields.push(Field { key: "accessed_at", value: quote(when.as_str()) });
            assert(json::field_views(fields@) =~= json::field_views(before).push(
                ("accessed_at"@, json::json_quoted(when@)),
            ));
        }
    }
    write_object(&fields)
}

fn write_sources(sources: &Vec<Source>, with_access: bool) -> (r: String)
    ensures
        r@ == sources_json(sources@, with_access),
{
    let ghost all = Seq::new(sources@.len(), |i: int| source_json(sources@[i], with_access));
    let mut out: Vec<String> = Vec::new();
    let mut i: usize = 0;
    while i < sources.len()
        invariant
            i <= sources@.len(),
            all == Seq::new(sources@.len(), |i: int| source_json(sources@[i], with_access)),
            text::strs(out@) == all.take(i as int),
        decreases sources@.len() - i,
    {
        let one = write_source(&sources[i], with_access);
        let ghost before = out@;
        out.push(one);
        proof {
            text::lemma_strs_push(before, one);
            assert(all.take(i + 1) =~= all.take(i as int).push(one@));
        }
        i = i + 1;
    }
    assert(all.take(all.len() as int) =~= all);
    write_list(&out)
}

fn write_cited(p: &PageInfo, label: &str) -> (r: String)
    ensures
        r@ == cited_json(*p, label@),
{
    let fields = vec![
        Field { key: "slug", value: quote(p.slug.as_str()) },
        Field { key: "title", value: quote(p.frontmatter.title.as_str()) },
        Field { key: "tags", value: write_texts(&p.frontmatter.tags) },
        Field { key: "sources", value: write_sources(&p.frontmatter.sources, false) },
        Field { key: "source", value: quote(label) },
    ];
    assert(json::field_views(fields@) =~= seq![
        ("slug"@, json::json_quoted(p.slug@)),
        ("title"@, json::json_quoted(p.frontmatter.title@)),
        ("tags"@, json::list_of_texts(text::strs(p.frontmatter.tags@))),
        ("sources"@, sources_json(p.frontmatter.sources@, false)),
        ("source"@, json::json_quoted(label@)),
    ]);
    write_object(&fields)
}

/// Prints a JSON list, or an empty one where it cannot be laid out.
pub fn print_list(document: &str) -> (r: String)
    ensures
        r@ == printed_list(document@),
{
    print_laid_out_list(json::pretty(document))
}

/// Prints a JSON list that was laid out, or an empty one.
pub fn print_laid_out_list(laid_out: Option<String>) -> (r: String)
    ensures
        r@ == match laid_out {
            Some(out) => out@ + "\n"@,
            None => "[]"@ + "\n"@,
        },
{
    let mut out = match laid_out {
        Some(out) => own(out.as_str()),
        None => own("[]"),
    };
    out.append("\n");
    out
}

fn print_sources_json(pages: &Vec<&PageInfo>, label: &str) -> (r: String)
    ensures
        r@ == printed_list(all_cited_json(borrowed(pages@), label@)),
{
    let ghost all = Seq::new(pages@.len(), |i: int| cited_json(borrowed(pages@)[i], label@));
    let mut out: Vec<String> = Vec::new();
    let mut i: usize = 0;
    while i < pages.len()
        invariant
            i <= pages@.len(),
            all == Seq::new(pages@.len(), |i: int| cited_json(borrowed(pages@)[i], label@)),
            text::strs(out@) == all.take(i as int),
        decreases pages@.len() - i,
    {
        let one = write_cited(pages[i], label);
        let ghost before = out@;
        out.push(one);
        proof {
            text::lemma_strs_push(before, one);
            assert(all.take(i + 1) =~= all.take(i as int).push(one@));
        }
        i = i + 1;
    }
    assert(all.take(all.len() as int) =~= all);
    print_list(write_list(&out).as_str())
}

/// The pages behind some references.
pub open spec fn borrowed(pages: Seq<&PageInfo>) -> Seq<PageInfo> {
    Seq::new(pages.len(), |i: int| *pages[i])
}

fn push_sources(out: &mut String, sources: &Vec<Source>, domain: &str)
    ensures
        final(out)@ == with_sources(old(out)@, sources@, domain@, sources@.len()),
{
    let lowered = to_lower(domain);
    let ghost acc = out@;
    let mut i: usize = 0;
    while i < sources.len()
        invariant
            i <= sources@.len(),
            lowered@ == text::lower(domain@),
            out@ == with_sources(acc, sources@, domain@, i as nat),
        decreases sources@.len() - i,
    {
        let s = &sources[i];
        if contains_str(to_lower(s.url.as_str()).as_str(), lowered.as_str()) {
            out.append("  ");
            out.append(s.url.as_str());
            out.append(" (");
            out.append(s.title.as_str());
            out.append(")");
            if let Some(when) = &s.accessed_at {
                out.append(" [accessed: ");
                out.append(when.as_str());
                out.append("]");
            }
            out.append("\n");
        }
        i = i + 1;
    }
}

fn keep_pages<'a>(pages: &'a Vec<PageInfo>, contents: &Vec<Option<String>>, query: Option<&str>) -> (r:
    Vec<&'a PageInfo>)
    requires
        contents@.len() == pages@.len(),
    ensures
        borrowed(r@) == kept_pages(pages@, contents@, text::opt_view(query), pages@.len()),
{
    let mut out: Vec<&'a PageInfo> = Vec::new();
    let mut i: usize = 0;
    assert(borrowed(out@) =~= Seq::<PageInfo>::empty());
    while i < pages.len()
        invariant
            i <= pages@.len(),
            contents@.len() == pages@.len(),
            borrowed(out@) == kept_pages(pages@, contents@, text::opt_view(query), i as nat),
        decreases pages@.len() - i,
    {
        let keep = match query {
            Some(q) => match &contents[i] {
                Some(c) => contains_str(to_lower(c.as_str()).as_str(), to_lower(q).as_str()),
                None => false,
            },
            None => true,
        };
        if keep {
            let ghost before = out@;
            out.push(&pages[i]);
            assert(borrowed(out@) =~= borrowed(before).push(pages@[i as int]));
        }
        i = i + 1;
    }
    out
}

/// `crosslink knowledge search --source`: the pages that cite the domain, with the text
/// of each where it can be read.
pub fn search_sources(
    label: &str,
    domain: &str,
    query: Option<&str>,
    pages: &Vec<PageInfo>,
    contents: &Vec<Option<String>>,
    as_json: bool,
    quiet: bool,
) -> (out: String)
    requires
        contents@.len() == pages@.len(),
    ensures
        out@ == sources_text(
            label@,
            domain@,
            kept_pages(pages@, contents@, text::opt_view(query), pages@.len()),
            as_json,
            quiet,
        ),
{
    let kept = keep_pages(pages, contents, query);
    let ghost all = borrowed(kept@);
    assert(all.len() == kept@.len());
    if as_json {
        return print_sources_json(&kept, label);
    }
    if quiet {
        let mut out = own("");
        let mut i: usize = 0;
        while i < kept.len()
            invariant
                i <= kept@.len(),
                all == borrowed(kept@),
                out@ == with_slugs(""@, all, i as nat),
            decreases kept@.len() - i,
        {
            out.append(kept[i].slug.as_str());
            out.append("\n");
            i = i + 1;
        }
        return out;
    }
    let mut out = start(label);
    if kept.len() == 0 {
        out.append("No knowledge pages cite \"");
        out.append(domain);
        out.append("\".\n");
    } else {
        let ghost acc = out@;
        let mut i: usize = 0;
        while i < kept.len()
            invariant
                i <= kept@.len(),
                all == borrowed(kept@),
                out@ == with_cited(acc, all, domain@, i as nat),
            decreases kept@.len() - i,
        {
            let p: &PageInfo = kept[i];
            out.append(p.slug.as_str());
            out.append(".md — ");
            out.append(p.frontmatter.title.as_str());
            out.append("\n");
            push_sources(&mut out, &p.frontmatter.sources, domain);
            i = i + 1;
        }
    }
    out.append("\n--- End external results ---\n");
    out
}

/// Whether a match is kept: where pages are filtered, its page must say something of
/// itself and pass.
pub open spec fn keeps_match(fm: Option<Frontmatter>, filters: Filters) -> bool {
    if filters.tag is None && filters.since is None && filters.contributor is None {
        true
    } else {
        match fm {
            Some(f) => passes(f, filters),
            None => false,
        }
    }
}

/// The matches that are kept, among the first `n`.
pub open spec fn kept_matches(
    matches: Seq<SearchMatch>,
    frontmatters: Seq<Option<Frontmatter>>,
    filters: Filters,
    n: nat,
) -> Seq<SearchMatch>
    decreases n,
{
    if n == 0 {
        Seq::empty()
    } else {
        let head = kept_matches(matches, frontmatters, filters, (n - 1) as nat);
        if keeps_match(frontmatters[n - 1], filters) {
            head.push(matches[n - 1])
        } else {
            head
        }
    }
}

/// The first `n` lines around a match.
pub open spec fn with_context(acc: Seq<char>, lines: Seq<(u64, String)>, n: nat) -> Seq<char>
    decreases n,
{
    if n == 0 {
        acc
    } else {
        with_context(acc, lines, (n - 1) as nat) + "    "@ + text::pad_before(
            text::dec(lines[n - 1].0 as nat),
            4,
        ) + " | "@ + lines[n - 1].1@ + "\n"@
    }
}

/// The first `n` matches, with an empty line between them.
pub open spec fn with_matches(acc: Seq<char>, matches: Seq<SearchMatch>, n: nat) -> Seq<char>
    decreases n,
{
    if n == 0 {
        acc
    } else {
        let head = with_matches(acc, matches, (n - 1) as nat);
        let m = matches[n - 1];
        let between = if n > 1 {
            head + "\n"@
        } else {
            head
        };
        with_context(
            between + "  "@ + m.slug@ + ".md (line "@ + text::dec(m.line_number as nat) + "):\n"@,
            m.context_lines@,
            m.context_lines@.len(),
        )
    }
}

/// The slugs of the first `n` matches, each on a line.
pub open spec fn with_match_slugs(acc: Seq<char>, matches: Seq<SearchMatch>, n: nat) -> Seq<char>
    decreases n,
{
    if n == 0 {
        acc
    } else {
        with_match_slugs(acc, matches, (n - 1) as nat) + matches[n - 1].slug@ + "\n"@
    }
}

/// A line around a match, in JSON.
pub open spec fn line_json(line: (u64, String)) -> Seq<char> {
    json::object_of(
        seq![
            ("line"@, text::dec(line.0 as nat)),
            ("text"@, json::json_quoted(line.1@)),
        ],
    )
}

/// A match in JSON.
pub open spec fn match_json(m: SearchMatch, label: Seq<char>) -> Seq<char> {
    json::object_of(
        seq![
            ("slug"@, json::json_quoted(m.slug@)),
            ("line_number"@, text::dec(m.line_number as nat)),
            (
                "context_lines"@,
                json::list_of(
                    Seq::new(m.context_lines@.len(), |i: int| line_json(m.context_lines@[i])),
                ),
            ),
            ("source"@, json::json_quoted(label)),
        ],
    )
}

/// Matches in JSON.
pub open spec fn all_matches_json(matches: Seq<SearchMatch>, label: Seq<char>) -> Seq<char> {
    json::list_of(Seq::new(matches.len(), |i: int| match_json(matches[i], label)))
}

/// What a search of texts prints, in the three forms.
pub open spec fn content_text(
    label: Seq<char>,
    query: Seq<char>,
    matches: Seq<SearchMatch>,
    as_json: bool,
    quiet: bool,
) -> Seq<char> {
    if as_json {
        printed_list(all_matches_json(matches, label))
    } else if !quiet {
        (if matches.len() == 0 {
            heading(label) + "No knowledge pages match \""@ + query + "\".\n"@
        } else {
            with_matches(heading(label), matches, matches.len())
        }) + closing()
    } else {
        with_match_slugs(""@, matches, matches.len())
    }
}

fn write_line(line: &(u64, String)) -> (r: String)
    ensures
        r@ == line_json(*line),
{
    let fields = vec![
        Field { key: "line", value: dec_u64(line.0) },
        Field { key: "text", value: quote(line.1.as_str()) },
    ];
    assert(json::field_views(fields@) =~= seq![
        ("line"@, text::dec(line.0 as nat)),
        ("text"@, json::json_quoted(line.1@)),
    ]);
    write_object(&fields)
}

fn write_lines(lines: &Vec<(u64, String)>) -> (r: String)
    ensures
        r@ == json::list_of(Seq::new(lines@.len(), |i: int| line_json(lines@[i]))),
{
    let ghost all = Seq::new(lines@.len(), |i: int| line_json(lines@[i]));
    let mut out: Vec<String> = Vec::new();
    let mut i: usize = 0;
    while i < lines.len()
        invariant
            i <= lines@.len(),
            all == Seq::new(lines@.len(), |i: int| line_json(lines@[i])),
            text::strs(out@) == all.take(i as int),
        decreases lines@.len() - i,
    {
        let one = write_line(&lines[i]);
        let ghost before = out@;
        out.push(one);
        proof {
            text::lemma_strs_push(before, one);
            assert(all.take(i + 1) =~= all.take(i as int).push(one@));
        }
        i = i + 1;
    }
    assert(all.take(all.len() as int) =~= all);
    write_list(&out)
}

fn write_match(m: &SearchMatch, label: &str) -> (r: String)
    ensures
        r@ == match_json(*m, label@),
{
    let fields = vec![
        Field { key: "slug", value: quote(m.slug.as_str()) },
        Field { key: "line_number", value: dec_u64(m.line_number) },
        Field { key: "context_lines", value: write_lines(&m.context_lines) },
        Field { key: "source", value: quote(label) },
    ];
    assert(json::field_views(fields@) =~= seq![
        ("slug"@, json::json_quoted(m.slug@)),
        ("line_number"@, text::dec(m.line_number as nat)),
        (
            "context_lines"@,
            json::list_of(
                Seq::new(m.context_lines@.len(), |i: int| line_json(m.context_lines@[i])),
            ),
        ),
        ("source"@, json::json_quoted(label@)),
    ]);
    write_object(&fields)
}

/// The matches behind some references.
pub open spec fn borrowed_matches(matches: Seq<&SearchMatch>) -> Seq<SearchMatch> {
    Seq::new(matches.len(), |i: int| *matches[i])
}

fn print_content_json(matches: &Vec<&SearchMatch>, label: &str) -> (r: String)
    ensures
        r@ == printed_list(all_matches_json(borrowed_matches(matches@), label@)),
{
    let ghost all = Seq::new(
        matches@.len(),
        |i: int| match_json(borrowed_matches(matches@)[i], label@),
    );
    let mut out: Vec<String> = Vec::new();
    let mut i: usize = 0;
    while i < matches.len()
        invariant
            i <= matches@.len(),
            all == Seq::new(
                matches@.len(),
                |i: int| match_json(borrowed_matches(matches@)[i], label@),
            ),
            text::strs(out@) == all.take(i as int),
        decreases matches@.len() - i,
    {
        let one = write_match(matches[i], label);
        let ghost before = out@;
        out.push(one);
        proof {
            text::lemma_strs_push(before, one);
            assert(all.take(i + 1) =~= all.take(i as int).push(one@));
        }
        i = i + 1;
    }
    assert(all.take(all.len() as int) =~= all);
    print_list(write_list(&out).as_str())
}

fn push_context(out: &mut String, lines: &Vec<(u64, String)>)
    ensures
        final(out)@ == with_context(old(out)@, lines@, lines@.len()),
{
    let ghost acc = out@;
    let mut i: usize = 0;
    while i < lines.len()
        invariant
            i <= lines@.len(),
            out@ == with_context(acc, lines@, i as nat),
        decreases lines@.len() - i,
    {
        out.append("    ");
        out.append(pad_before_str(dec_u64(lines[i].0).as_str(), 4).as_str());
        out.append(" | ");
        out.append(lines[i].1.as_str());
        out.append("\n");
        i = i + 1;
    }
}

fn keep_matches<'a>(
    matches: &'a Vec<SearchMatch>,
    frontmatters: &Vec<Option<Frontmatter>>,
    filters: &Filters,
) -> (r: Vec<&'a SearchMatch>)
    requires
        frontmatters@.len() == matches@.len(),
    ensures
        borrowed_matches(r@) == kept_matches(matches@, frontmatters@, *filters, matches@.len()),
{
    let mut out: Vec<&'a SearchMatch> = Vec::new();
    let all = filters.tag.is_none() && filters.since.is_none() && filters.contributor.is_none();
    let mut i: usize = 0;
    assert(borrowed_matches(out@) =~= Seq::<SearchMatch>::empty());
    while i < matches.len()
        invariant
            i <= matches@.len(),
            frontmatters@.len() == matches@.len(),
            all == (filters.tag is None && filters.since is None && filters.contributor is None),
            borrowed_matches(out@) == kept_matches(matches@, frontmatters@, *filters, i as nat),
        decreases matches@.len() - i,
    {
        let keep = all || match &frontmatters[i] {
            Some(fm) => page_passes(fm, filters),
            None => false,
        };
        if keep {
            let ghost before = out@;
            out.push(&matches[i]);
            assert(borrowed_matches(out@) =~= borrowed_matches(before).push(matches@[i as int]));
        }
        i = i + 1;
    }
    out
}

/// `crosslink knowledge search`: the places where the query was found, with what the
/// page of each says of itself, where it does.
pub fn search_content(
    label: &str,
    query: &str,
    matches: &Vec<SearchMatch>,
    frontmatters: &Vec<Option<Frontmatter>>,
    filters: &Filters,
    as_json: bool,
    quiet: bool,
) -> (out: String)
    requires
        frontmatters@.len() == matches@.len(),
    ensures
        out@ == content_text(
            label@,
            query@,
            kept_matches(matches@, frontmatters@, *filters, matches@.len()),
            as_json,
            quiet,
        ),
{
    let kept = keep_matches(matches, frontmatters, filters);
    let ghost all = borrowed_matches(kept@);
    assert(all.len() == kept@.len());
    if as_json {
        return print_content_json(&kept, label);
    }
    if quiet {
        let mut out = own("");
        let mut i: usize = 0;
        while i < kept.len()
            invariant
                i <= kept@.len(),
                all == borrowed_matches(kept@),
                out@ == with_match_slugs(""@, all, i as nat),
            decreases kept@.len() - i,
        {
            out.append(kept[i].slug.as_str());
            out.append("\n");
            i = i + 1;
        }
        return out;
    }
    let mut out = start(label);
    if kept.len() == 0 {
        out.append("No knowledge pages match \"");
        out.append(query);
        out.append("\".\n");
    } else {
        let ghost acc = out@;
        let mut i: usize = 0;
        while i < kept.len()
            invariant
                i <= kept@.len(),
                all == borrowed_matches(kept@),
                out@ == with_matches(acc, all, i as nat),
            decreases kept@.len() - i,
        {
            let m: &SearchMatch = kept[i];
            if i > 0 {
                out.append("\n");
            }
            out.append("  ");
            out.append(m.slug.as_str());
            out.append(".md (line ");
            out.append(dec_u64(m.line_number).as_str());
            out.append("):\n");
            push_context(&mut out, &m.context_lines);
            i = i + 1;
        }
    }
    out.append("\n--- End external results ---\n");
    out
}

// ---------------------------------------------------------------------------
// Showing
// ---------------------------------------------------------------------------

/// A page in JSON.
pub open spec fn page_json(slug: Seq<char>, fm: Frontmatter, label: Seq<char>) -> Seq<char> {
    json::object_of(
        seq![
            ("slug"@, json::json_quoted(slug)),
            ("title"@, json::json_quoted(fm.title@)),
            ("tags"@, json::list_of_texts(text::strs(fm.tags@))),
            ("sources"@, sources_json(fm.sources@, true)),
            ("contributors"@, json::list_of_texts(text::strs(fm.contributors@))),
            ("created"@, json::json_quoted(fm.created@)),
            ("updated"@, json::json_quoted(fm.updated@)),
            ("source"@, json::json_quoted(label)),
        ],
    )
}

fn write_page(slug: &str, fm: &Frontmatter, label: &str) -> (r: String)
    ensures
        r@ == page_json(slug@, *fm, label@),
{
    let fields = vec![
        Field { key: "slug", value: quote(slug) },
        Field { key: "title", value: quote(fm.title.as_str()) },
        Field { key: "tags", value: write_texts(&fm.tags) },
        Field { key: "sources", value: write_sources(&fm.sources, true) },
        Field { key: "contributors", value: write_texts(&fm.contributors) },
        Field { key: "created", value: quote(fm.created.as_str()) },
        Field { key: "updated", value: quote(fm.updated.as_str()) },
        Field { key: "source", value: quote(label) },
    ];
    assert(json::field_views(fields@) =~= seq![
        ("slug"@, json::json_quoted(slug@)),
        ("title"@, json::json_quoted(fm.title@)),
        ("tags"@, json::list_of_texts(text::strs(fm.tags@))),
        ("sources"@, sources_json(fm.sources@, true)),
        ("contributors"@, json::list_of_texts(text::strs(fm.contributors@))),
        ("created"@, json::json_quoted(fm.created@)),
        ("updated"@, json::json_quoted(fm.updated@)),
        ("source"@, json::json_quoted(label@)),
    ]);
    write_object(&fields)
}

/// `crosslink knowledge show`: a page as it is, between lines that say where it is from
/// unless these are not wanted, or what it says of itself in JSON. A page that says
/// nothing of itself cannot be shown in JSON.
pub fn show(
    label: &str,
    slug: &str,
    content: &str,
    frontmatter: Option<&Frontmatter>,
    as_json: bool,
    quiet: bool,
) -> (r: Result<String, String>)
    ensures
        match r {
            Ok(out) => if as_json {
                frontmatter is Some && out@ == json::printed(
                    page_json(slug@, *frontmatter->0, label@),
                )
            } else if quiet {
                out@ == content@
            } else {
                out@ == heading(label@) + content@ + closing()
            },
            Err(message) => as_json && frontmatter is None && message@ == "Page '"@ + slug@
                + "' has no valid frontmatter"@,
        },
{
    if as_json {
        return match frontmatter {
            Some(fm) => Ok(json::print(write_page(slug, fm, label).as_str())),
            None => {
                let mut message = own("Page '");
                message.append(slug);
                message.append("' has no valid frontmatter");
                Err(message)
            },
        };
    }
    if quiet {
        return Ok(own(content));
    }
    let mut out = start(label);
    out.append(content);
    out.append("\n--- End external results ---\n");
    Ok(out)
}

// ---------------------------------------------------------------------------
// Listing
// ---------------------------------------------------------------------------

/// The pages, by their position, that pass the filters, among the first `n`.
pub open spec fn passing(pages: Seq<PageInfo>, filters: Filters, n: nat) -> Seq<int>
    decreases n,
{
    if n == 0 {
        Seq::empty()
    } else {
        let head = passing(pages, filters, (n - 1) as nat);
        if passes(pages[n - 1].frontmatter, filters) {
            head.push(n - 1)
        } else {
            head
        }
    }
}

/// A page in the columns of the list. The title and the tags are given as they fit in
/// their columns.
pub open spec fn page_row(p: PageInfo, title: Seq<char>, tags: Seq<char>) -> Seq<char> {
    text::pad(p.slug@, 30) + " "@ + text::pad(title, 30) + " "@ + text::pad(tags, 20) + " "@
        + p.frontmatter.updated@ + "\n"@
}

/// The rows of the first `n` pages that pass.
pub open spec fn with_page_rows(
    acc: Seq<char>,
    pages: Seq<PageInfo>,
    fitted: Seq<(String, String)>,
    picked: Seq<int>,
    n: nat,
) -> Seq<char>
    decreases n,
{
    if n == 0 {
        acc
    } else {
        let i = picked[n - 1];
        with_page_rows(acc, pages, fitted, picked, (n - 1) as nat) + page_row(
            pages[i],
            fitted[i].0@,
            fitted[i].1@,
        )
    }
}

/// A page of a list in JSON.
pub open spec fn listed_json(p: PageInfo, label: Seq<char>) -> Seq<char> {
    json::object_of(
        seq![
            ("slug"@, json::json_quoted(p.slug@)),
            ("title"@, json::json_quoted(p.frontmatter.title@)),
            ("tags"@, json::list_of_texts(text::strs(p.frontmatter.tags@))),
            ("updated"@, json::json_quoted(p.frontmatter.updated@)),
            ("source"@, json::json_quoted(label)),
        ],
    )
}

/// What a list prints for people, or only the rows.
pub open spec fn list_text(
    label: Seq<char>,
    pages: Seq<PageInfo>,
    fitted: Seq<(String, String)>,
    picked: Seq<int>,
    quiet: bool,
) -> Seq<char> {
    if quiet {
        with_page_rows(""@, pages, fitted, picked, picked.len())
    } else if picked.len() == 0 {
        heading(label) + "No knowledge pages found.\n"@ + closing()
    } else {
        with_page_rows(
            heading(label) + text::pad("SLUG"@, 30) + " "@ + text::pad("TITLE"@, 30) + " "@
                + text::pad("TAGS"@, 20) + " UPDATED\n"@ + text::repeated('-', 90) + "\n"@,
            pages,
            fitted,
            picked,
            picked.len(),
        ) + "\n"@ + text::dec(picked.len()) + " page(s)\n"@ + closing()
    }
}

/// The tags of a page as they are listed, before they are fitted to their column.
pub fn tags_text(fm: &Frontmatter) -> (r: String)
    ensures
        r@ == text::join(text::strs(fm.tags@), ", "@),
{
    join_strs(&fm.tags, ", ")
}

fn write_listed(p: &PageInfo, label: &str) -> (r: String)
    ensures
        r@ == listed_json(*p, label@),
{
    let fields = vec![
        Field { key: "slug", value: quote(p.slug.as_str()) },
        Field { key: "title", value: quote(p.frontmatter.title.as_str()) },
        Field { key: "tags", value: write_texts(&p.frontmatter.tags) },
        Field { key: "updated", value: quote(p.frontmatter.updated.as_str()) },
        Field { key: "source", value: quote(label) },
    ];
    assert(json::field_views(fields@) =~= seq![
        ("slug"@, json::json_quoted(p.slug@)),
        ("title"@, json::json_quoted(p.frontmatter.title@)),
        ("tags"@, json::list_of_texts(text::strs(p.frontmatter.tags@))),
        ("updated"@, json::json_quoted(p.frontmatter.updated@)),
        ("source"@, json::json_quoted(label@)),
    ]);
    write_object(&fields)
}

/// The positions of a list of positions.
pub open spec fn positions(v: Seq<usize>) -> Seq<int> {
    Seq::new(v.len(), |i: int| v[i] as int)
}

fn pick(pages: &Vec<PageInfo>, filters: &Filters) -> (r: Vec<usize>)
    ensures
        positions(r@) == passing(pages@, *filters, pages@.len()),
        forall|k: int| 0 <= k < r@.len() ==> (#[trigger] r@[k]) < pages@.len(),
{
    let mut out: Vec<usize> = Vec::new();
    let mut i: usize = 0;
    assert(positions(out@) =~= Seq::<int>::empty());
    while i < pages.len()
        invariant
            i <= pages@.len(),
            positions(out@) == passing(pages@, *filters, i as nat),
            forall|k: int| 0 <= k < out@.len() ==> (#[trigger] out@[k]) < pages@.len(),
        decreases pages@.len() - i,
    {
        if page_passes(&pages[i].frontmatter, filters) {
            let ghost before = out@;
            out.push(i);
            assert(positions(out@) =~= positions(before).push(i as int));
        }
        i = i + 1;
    }
    out
}

/// `crosslink knowledge list`: the pages that pass the filters. Of each page the title
/// and the tags are given as they fit in their columns.
pub fn list(
    label: &str,
    pages: &Vec<PageInfo>,
    fitted: &Vec<(String, String)>,
    filters: &Filters,
    as_json: bool,
    quiet: bool,
) -> (out: String)
    requires
        fitted@.len() == pages@.len(),
    ensures
        ({
            let picked = passing(pages@, *filters, pages@.len());
            out@ == (if as_json {
                json::printed(
                    json::list_of(
                        Seq::new(picked.len(), |k: int| listed_json(pages@[picked[k]], label@)),
                    ),
                )
            } else {
                list_text(label@, pages@, fitted@, picked, quiet)
            })
        }),
{
    let chosen = pick(pages, filters);
    let ghost picked = positions(chosen@);
    assert(picked.len() == chosen@.len());
    if as_json {
        let ghost all = Seq::new(picked.len(), |k: int| listed_json(pages@[picked[k]], label@));
        let mut entries: Vec<String> = Vec::new();
        let mut k: usize = 0;
        while k < chosen.len()
            invariant
                k <= chosen@.len(),
                picked == positions(chosen@),
                forall|j: int| 0 <= j < chosen@.len() ==> (#[trigger] chosen@[j]) < pages@.len(),
                all == Seq::new(picked.len(), |k: int| listed_json(pages@[picked[k]], label@)),
                text::strs(entries@) == all.take(k as int),
            decreases chosen@.len() - k,
        {
            let one = write_listed(&pages[chosen[k]], label);
            let ghost before = entries@;
            entries.push(one);
            proof {
                text::lemma_strs_push(before, one);
                assert(all.take(k + 1) =~= all.take(k as int).push(one@));
            }
            k = k + 1;
        }
        assert(all.take(all.len() as int) =~= all);
        return json::print(write_list(&entries).as_str());
    }
    let mut out = if quiet {
        own("")
    } else {
        start(label)
    };
    if chosen.len() == 0 {
        if !quiet {
            out.append("No knowledge pages found.\n");
        }
    } else {
        if !quiet {
            out.append(pad_str("SLUG", 30).as_str());
            out.append(" ");
            out.append(pad_str("TITLE", 30).as_str());
            out.append(" ");
            out.append(pad_str("TAGS", 20).as_str());
            out.append(" UPDATED\n");
            out.append(repeat_char('-', 90).as_str());
            out.append("\n");
        }
        let ghost acc = out@;
        let mut k: usize = 0;
        while k < chosen.len()
            invariant
                k <= chosen@.len(),
                picked == positions(chosen@),
                fitted@.len() == pages@.len(),
                forall|j: int| 0 <= j < chosen@.len() ==> (#[trigger] chosen@[j]) < pages@.len(),
                out@ == with_page_rows(acc, pages@, fitted@, picked, k as nat),
            decreases chosen@.len() - k,
        {
            let i: usize = chosen[k];
            let mut row = pad_str(pages[i].slug.as_str(), 30);
            row.append(" ");
            row.append(pad_str(fitted[i].0.as_str(), 30).as_str());
            row.append(" ");
            row.append(pad_str(fitted[i].1.as_str(), 20).as_str());
            row.append(" ");
            row.append(pages[i].frontmatter.updated.as_str());
            row.append("\n");
            out.append(row.as_str());
            k = k + 1;
        }
        if !quiet {
            out.append("\n");
            out.append(dec_u64(chosen.len() as u64).as_str());
            out.append(" page(s)\n");
        }
    }
    if !quiet {
        out.append("\n--- End external results ---\n");
    }
    out
}

/// Every page that a list or a filtered search shows passes the filters, and no page
/// that passes is left out.
pub proof fn law_listed_pages_pass(pages: Seq<PageInfo>, filters: Filters, n: nat)
    requires
        n <= pages.len(),
    ensures
        forall|k: int|
            0 <= k < passing(pages, filters, n).len() ==> 0 <= #[trigger] passing(
                pages,
                filters,
                n,
            )[k] < n && passes(pages[passing(pages, filters, n)[k]].frontmatter, filters),
        forall|i: int|
            0 <= i < n && passes((#[trigger] pages[i]).frontmatter, filters) ==> passing(
                pages,
                filters,
                n,
            ).contains(i),
    decreases n,
{
    if n > 0 {
        law_listed_pages_pass(pages, filters, (n - 1) as nat);
        let head = passing(pages, filters, (n - 1) as nat);
        let all = passing(pages, filters, n);
        assert forall|i: int| 0 <= i < n && passes((#[trigger] pages[i]).frontmatter, filters) implies
            all.contains(i) by {
            if i < n - 1 {
                assert(head.contains(i));
                let k = choose|k: int| 0 <= k < head.len() && head[k] == i;
                assert(all[k] == i);
            } else {
                assert(all[head.len() as int] == i);
            }
        }
    }
}

// ---------------------------------------------------------------------------
// What is found, and what is shown of it
// ---------------------------------------------------------------------------

/// A page passes exactly where it has the tag, the contributor and the date that are asked for;
/// without a filter every page passes.
pub proof fn law_filters_ask_for_what_they_name(fm: &Frontmatter, filters: &Filters, r: bool)
    requires
        call_ensures(page_passes, (fm, filters), r),
    ensures
        r && filters.tag is Some ==> text::has_name(text::strs(fm.tags@), filters.tag->0@),
        r && filters.contributor is Some ==> text::has_name(
            text::strs(fm.contributors@),
            filters.contributor->0@,
        ),
        r && filters.since is Some ==> text::lex_le(filters.since->0@, fm.updated@),
        filters.tag is None && filters.contributor is None && filters.since is None ==> r,
        filters.tag is Some && filters.contributor is None && filters.since is None ==> (r
            <==> text::has_name(text::strs(fm.tags@), filters.tag->0@)),
        filters.tag is None && filters.contributor is Some && filters.since is None ==> (r
            <==> text::has_name(text::strs(fm.contributors@), filters.contributor->0@)),
        filters.tag is None && filters.contributor is None && filters.since is Some ==> (r
            <==> text::lex_le(filters.since->0@, fm.updated@)),
{
}

/// Sources are searched where a domain is given, texts where only a query is; without both there is
/// nothing to search for.
pub proof fn law_searches_need_something(
    query: Option<&str>,
    source_domain: Option<&str>,
    r: Result<SearchKind, String>,
)
    requires
        call_ensures(search_kind, (query, source_domain), r),
    ensures
        source_domain is Some ==> r == Ok::<SearchKind, String>(SearchKind::Sources),
        source_domain is None && query is Some ==> r == Ok::<SearchKind, String>(
            SearchKind::Content,
        ),
        r is Err <==> source_domain is None && query is None,
{
}

/// What is printed for people names where it is from.
pub proof fn law_headings_name_the_repository(label: Seq<char>)
    ensures
        text::contains(heading(label), "--- Results from "@ + label),
{
    broadcast use {text::lemma_contains_self, text::lemma_contains_first};

}

/// Without a query every page is kept. With one, a page is kept exactly where its text can be read
/// and holds the query, whatever the case.
pub proof fn law_pages_are_kept_by_their_text(content: Option<Seq<char>>, q: Seq<char>)
    ensures
        keeps_page(content, None),
        content is None ==> !keeps_page(content, Some(q)),
        content matches Some(c) ==> (keeps_page(content, Some(q)) <==> text::contains(
            text::lower(c),
            text::lower(q),
        )),
{
}

/// No page that is to be kept is lost, and none that is not is kept; those that are stay in order.
pub proof fn law_all_kept_pages_are_found(
    pages: Seq<PageInfo>,
    contents: Seq<Option<String>>,
    query: Option<Seq<char>>,
    n: nat,
    k: int,
)
    requires
        0 <= k < n <= pages.len(),
        contents.len() == pages.len(),
    ensures
        keeps_page(text::opt_str(contents[k]), query) ==> kept_pages(
            pages,
            contents,
            query,
            n,
        ).contains(pages[k]),
        forall|p: PageInfo| #[trigger]
            kept_pages(pages, contents, query, n).contains(p) ==> exists|j: int|
                0 <= j < n && pages[j] == p && keeps_page(
                    text::opt_str(#[trigger] contents[j]),
                    query,
                ),
        query is None ==> kept_pages(pages, contents, query, n) == pages.take(n as int),
{
    if keeps_page(text::opt_str(contents[k]), query) {
        lemma_kept_pages(pages, contents, query, n, k);
    }
    lemma_kept_pages_only(pages, contents, query, n);
    if query is None {
        lemma_all_pages_kept(pages, contents, n);
    }
}

proof fn lemma_kept_pages(
    pages: Seq<PageInfo>,
    contents: Seq<Option<String>>,
    query: Option<Seq<char>>,
    n: nat,
    k: int,
)
    requires
        0 <= k < n,
        keeps_page(text::opt_str(contents[k]), query),
    ensures
        kept_pages(pages, contents, query, n).contains(pages[k]),
    decreases n,
{
    let head = kept_pages(pages, contents, query, (n - 1) as nat);
    let all = kept_pages(pages, contents, query, n);
    if k == n - 1 {
        assert(all.last() == pages[k]);
    } else {
        lemma_kept_pages(pages, contents, query, (n - 1) as nat, k);
        let i = choose|i: int| 0 <= i < head.len() && head[i] == pages[k];
        assert(all[i] == pages[k]);
    }
}

proof fn lemma_kept_pages_only(
    pages: Seq<PageInfo>,
    contents: Seq<Option<String>>,
    query: Option<Seq<char>>,
    n: nat,
)
    ensures
        forall|p: PageInfo| #[trigger]
            kept_pages(pages, contents, query, n).contains(p) ==> exists|j: int|
                0 <= j < n && pages[j] == p && keeps_page(
                    text::opt_str(#[trigger] contents[j]),
                    query,
                ),
    decreases n,
{
    if n > 0 {
        lemma_kept_pages_only(pages, contents, query, (n - 1) as nat);
        let head = kept_pages(pages, contents, query, (n - 1) as nat);
        let all = kept_pages(pages, contents, query, n);
        assert forall|p: PageInfo| #[trigger] all.contains(p) implies exists|j: int|
            0 <= j < n && pages[j] == p && keeps_page(
                text::opt_str(#[trigger] contents[j]),
                query,
            ) by {
            let i = choose|i: int| 0 <= i < all.len() && all[i] == p;
            if i < head.len() {
                assert(head[i] == p);
                assert(head.contains(p));
            } else {
                assert(contents[n - 1] == contents[n - 1]);
            }
        }
    }
}

proof fn lemma_all_pages_kept(pages: Seq<PageInfo>, contents: Seq<Option<String>>, n: nat)
    requires
        n <= pages.len(),
    ensures
        kept_pages(pages, contents, None, n) == pages.take(n as int),
    decreases n,
{
    if n > 0 {
        lemma_all_pages_kept(pages, contents, (n - 1) as nat);
    }
    assert(kept_pages(pages, contents, None, n) =~= pages.take(n as int));
}

/// A source of the domain is shown with its address and title, and when it was read where that is
/// known; what was there already stays.
pub proof fn law_sources_are_shown(
    acc: Seq<char>,
    sources: Seq<Source>,
    domain: Seq<char>,
    n: nat,
    k: int,
    p: Seq<char>,
)
    requires
        n <= sources.len(),
    ensures
        text::contains(acc, p) ==> text::contains(with_sources(acc, sources, domain, n), p),
        0 <= k < n && text::contains(text::lower(sources[k].url@), text::lower(domain)) ==> {
            &&& text::contains(
                with_sources(acc, sources, domain, n),
                "  "@ + sources[k].url@ + " ("@,
            )
            &&& text::contains(
                with_sources(acc, sources, domain, n),
                " ("@ + sources[k].title@ + ")"@,
            )
            &&& sources[k].accessed_at matches Some(at) ==> text::contains(
                with_sources(acc, sources, domain, n),
                " [accessed: "@ + at@ + "]"@,
            )
        },
        (forall|j: int|
            0 <= j < n ==> !text::contains(
                text::lower((#[trigger] sources[j]).url@),
                text::lower(domain),
            )) ==> with_sources(acc, sources, domain, n) == acc,
    decreases n,
{
    broadcast use {
        text::lemma_contains_first,
        text::lemma_contains_pair,
        text::lemma_contains_triple,
    };

    if n > 0 {
        law_sources_are_shown(acc, sources, domain, (n - 1) as nat, k, p);
        let s = sources[n - 1];
        let head = with_sources(acc, sources, domain, (n - 1) as nat);
        if text::contains(text::lower(s.url@), text::lower(domain)) {
            let line = head + "  "@ + s.url@ + " ("@ + s.title@ + ")"@;
            assert(text::contains(line, "  "@ + s.url@ + " ("@));
            assert(text::contains(line, " ("@ + s.title@ + ")"@));
            if 0 <= k < n - 1 {
                if text::contains(text::lower(sources[k].url@), text::lower(domain)) {
                    assert(text::contains(line, "  "@ + sources[k].url@ + " ("@));
                    assert(text::contains(line, " ("@ + sources[k].title@ + ")"@));
                }
            }
        }
    }
}

/// Every page that cites the domain is shown with its slug and title.
pub proof fn law_cited_pages_are_shown(
    acc: Seq<char>,
    pages: Seq<PageInfo>,
    domain: Seq<char>,
    n: nat,
    k: int,
    p: Seq<char>,
)
    requires
        n <= pages.len(),
    ensures
        text::contains(acc, p) ==> text::contains(with_cited(acc, pages, domain, n), p),
        0 <= k < n ==> text::contains(
            with_cited(acc, pages, domain, n),
            pages[k].slug@ + ".md — "@ + pages[k].frontmatter.title@,
        ),
    decreases n,
{
    if n > 0 {
        law_cited_pages_are_shown(acc, pages, domain, (n - 1) as nat, k, p);
        let page = pages[n - 1];
        let head = with_cited(acc, pages, domain, (n - 1) as nat);
        let named = head + page.slug@ + ".md — "@ + page.frontmatter.title@;
        let line = named + "\n"@;
        let what = if k == n - 1 {
            page.slug@ + ".md — "@ + page.frontmatter.title@
        } else {
            pages[k].slug@ + ".md — "@ + pages[k].frontmatter.title@
        };
        if 0 <= k < n {
            assert(text::contains(line, what)) by {
                broadcast use {text::lemma_contains_first, text::lemma_contains_triple};

            }
            law_sources_are_shown(
                line,
                page.frontmatter.sources@,
                domain,
                page.frontmatter.sources@.len(),
                0,
                what,
            );
        }
        if text::contains(acc, p) {
            assert(text::contains(line, p)) by {
                broadcast use text::lemma_contains_first;

            }
            law_sources_are_shown(
                line,
                page.frontmatter.sources@,
                domain,
                page.frontmatter.sources@.len(),
                0,
                p,
            );
        }
    }
}

proof fn lemma_slugs_shown(acc: Seq<char>, pages: Seq<PageInfo>, n: nat, k: int)
    requires
        0 <= k < n,
    ensures
        text::contains(with_slugs(acc, pages, n), pages[k].slug@ + "\n"@),
    decreases n,
{
    broadcast use {text::lemma_contains_first, text::lemma_contains_pair};

    if k < n - 1 {
        lemma_slugs_shown(acc, pages, (n - 1) as nat, k);
    }
}

/// Every page that was found is shown to people with its title, and by its slug where it is quiet;
/// where none was found the domain is named.
pub proof fn law_found_sources_are_told(
    label: Seq<char>,
    domain: Seq<char>,
    pages: Seq<PageInfo>,
    quiet: bool,
    k: int,
)
    ensures
        0 <= k < pages.len() && !quiet ==> text::contains(
            sources_text(label, domain, pages, false, quiet),
            pages[k].slug@ + ".md — "@ + pages[k].frontmatter.title@,
        ),
        0 <= k < pages.len() && quiet ==> text::contains(
            sources_text(label, domain, pages, false, quiet),
            pages[k].slug@ + "\n"@,
        ),
        !quiet && pages.len() == 0 ==> text::contains(
            sources_text(label, domain, pages, false, quiet),
            "No knowledge pages cite \""@ + domain,
        ),
        !quiet ==> text::contains(
            sources_text(label, domain, pages, false, quiet),
            heading(label),
        ),
        sources_text(label, domain, pages, true, quiet) == printed_list(
            all_cited_json(pages, label),
        ),
{
    broadcast use {
        text::lemma_contains_self,
        text::lemma_contains_first,
        text::lemma_contains_pair,
    };

    law_cited_pages_are_shown(heading(label), pages, domain, pages.len(), k, heading(label));
    if 0 <= k < pages.len() {
        lemma_slugs_shown(""@, pages, pages.len(), k);
    }
}

/// A JSON list is printed as it is laid out, or as an empty list.
pub proof fn law_lists_are_printed(laid_out: Option<String>, r: String, document: Seq<char>)
    requires
        call_ensures(print_laid_out_list, (laid_out,), r),
    ensures
        laid_out matches Some(out) ==> r@ == out@ + "\n"@,
        laid_out is None ==> r@ == "[]"@ + "\n"@,
        json::json_pretty(document) matches Some(out) ==> printed_list(document) == out + "\n"@,
{
}

/// The JSON of a source holds its address and title under their keys, and when it was read exactly
/// where that is known and asked for.
pub proof fn law_source_json_holds_the_source(s: Source, with_access: bool)
    ensures
        text::contains(
            source_json(s, with_access),
            json::json_quoted("url"@) + ":"@ + json::json_quoted(s.url@),
        ),
        text::contains(
            source_json(s, with_access),
            json::json_quoted("title"@) + ":"@ + json::json_quoted(s.title@),
        ),
        with_access ==> (s.accessed_at matches Some(at) ==> text::contains(
            source_json(s, with_access),
            json::json_quoted("accessed_at"@) + ":"@ + json::json_quoted(at@),
        )),
{
    let fields = seq![
        ("url"@, json::json_quoted(s.url@)),
        ("title"@, json::json_quoted(s.title@)),
    ];
    let all = match s.accessed_at {
        Some(at) => if with_access {
            fields.push(("accessed_at"@, json::json_quoted(at@)))
        } else {
            fields
        },
        None => fields,
    };
    json::law_lists_and_objects_hold_all(Seq::empty(), all, 0);
    json::law_lists_and_objects_hold_all(Seq::empty(), all, 1);
    json::law_lists_and_objects_hold_all(Seq::empty(), all, 2);
}

/// The JSON of a page holds what the page says of itself, each thing under its key, and the
/// repository that it is from.
pub proof fn law_page_json_holds_the_page(slug: Seq<char>, p: PageInfo, label: Seq<char>)
    ensures
        ({
            let fm = p.frontmatter;
            let j = page_json(slug, fm, label);
            let c = cited_json(p, label);
            let l = listed_json(p, label);
            &&& text::contains(j, json::json_quoted("slug"@) + ":"@ + json::json_quoted(slug))
            &&& text::contains(j, json::json_quoted("title"@) + ":"@ + json::json_quoted(fm.title@))
            &&& text::contains(
                j,
                json::json_quoted("tags"@) + ":"@ + json::list_of_texts(text::strs(fm.tags@)),
            )
            &&& text::contains(
                j,
                json::json_quoted("sources"@) + ":"@ + sources_json(fm.sources@, true),
            )
            &&& text::contains(
                j,
                json::json_quoted("contributors"@) + ":"@ + json::list_of_texts(
                    text::strs(fm.contributors@),
                ),
            )
            &&& text::contains(
                j,
                json::json_quoted("created"@) + ":"@ + json::json_quoted(fm.created@),
            )
            &&& text::contains(
                j,
                json::json_quoted("updated"@) + ":"@ + json::json_quoted(fm.updated@),
            )
            &&& text::contains(j, json::json_quoted("source"@) + ":"@ + json::json_quoted(label))
            &&& text::contains(c, json::json_quoted("slug"@) + ":"@ + json::json_quoted(p.slug@))
            &&& text::contains(c, json::json_quoted("title"@) + ":"@ + json::json_quoted(fm.title@))
            &&& text::contains(
                c,
                json::json_quoted("sources"@) + ":"@ + sources_json(fm.sources@, false),
            )
            &&& text::contains(c, json::json_quoted("source"@) + ":"@ + json::json_quoted(label))
            &&& text::contains(l, json::json_quoted("slug"@) + ":"@ + json::json_quoted(p.slug@))
            &&& text::contains(l, json::json_quoted("title"@) + ":"@ + json::json_quoted(fm.title@))
            &&& text::contains(
                l,
                json::json_quoted("updated"@) + ":"@ + json::json_quoted(fm.updated@),
            )
            &&& text::contains(l, json::json_quoted("source"@) + ":"@ + json::json_quoted(label))
        }),
{
    let fm = p.frontmatter;
    let j = seq![
        ("slug"@, json::json_quoted(slug)),
        ("title"@, json::json_quoted(fm.title@)),
        ("tags"@, json::list_of_texts(text::strs(fm.tags@))),
        ("sources"@, sources_json(fm.sources@, true)),
        ("contributors"@, json::list_of_texts(text::strs(fm.contributors@))),
        ("created"@, json::json_quoted(fm.created@)),
        ("updated"@, json::json_quoted(fm.updated@)),
        ("source"@, json::json_quoted(label)),
    ];
    let c = seq![
        ("slug"@, json::json_quoted(p.slug@)),
        ("title"@, json::json_quoted(fm.title@)),
        ("tags"@, json::list_of_texts(text::strs(fm.tags@))),
        ("sources"@, sources_json(fm.sources@, false)),
        ("source"@, json::json_quoted(label)),
    ];
    let l = seq![
        ("slug"@, json::json_quoted(p.slug@)),
        ("title"@, json::json_quoted(fm.title@)),
        ("tags"@, json::list_of_texts(text::strs(fm.tags@))),
        ("updated"@, json::json_quoted(fm.updated@)),
        ("source"@, json::json_quoted(label)),
    ];
    assert forall|i: int| 0 <= i < j.len() implies text::contains(
        json::object_of(j),
        json::json_quoted((#[trigger] j[i]).0) + ":"@ + j[i].1,
    ) by {
        json::law_lists_and_objects_hold_all(Seq::empty(), j, i);
    }
    assert forall|i: int| 0 <= i < c.len() implies text::contains(
        json::object_of(c),
        json::json_quoted((#[trigger] c[i]).0) + ":"@ + c[i].1,
    ) by {
        json::law_lists_and_objects_hold_all(Seq::empty(), c, i);
    }
    assert forall|i: int| 0 <= i < l.len() implies text::contains(
        json::object_of(l),
        json::json_quoted((#[trigger] l[i]).0) + ":"@ + l[i].1,
    ) by {
        json::law_lists_and_objects_hold_all(Seq::empty(), l, i);
    }
    assert(j[0].0 == "slug"@ && j[1].0 == "title"@ && j[2].0 == "tags"@ && j[3].0 == "sources"@
        && j[4].0 == "contributors"@ && j[5].0 == "created"@ && j[6].0 == "updated"@ && j[7].0
        == "source"@);
    assert(c[0].0 == "slug"@ && c[1].0 == "title"@ && c[3].0 == "sources"@ && c[4].0 == "source"@);
    assert(l[0].0 == "slug"@ && l[1].0 == "title"@ && l[3].0 == "updated"@ && l[4].0 == "source"@);
}

/// Without filters every match is kept. With some, a match is kept exactly where its page says
/// something of itself and passes.
pub proof fn law_matches_are_kept_by_their_page(fm: Option<Frontmatter>, filters: Filters)
    ensures
        filters.tag is None && filters.since is None && filters.contributor is None ==> keeps_match(
            fm,
            filters,
        ),
        filters.tag is Some || filters.since is Some || filters.contributor is Some ==> (
        keeps_match(fm, filters) <==> fm is Some && passes(fm->0, filters)),
{
}

/// No match that is to be kept is lost, and none that is not is kept.
pub proof fn law_all_kept_matches_are_found(
    matches: Seq<SearchMatch>,
    frontmatters: Seq<Option<Frontmatter>>,
    filters: Filters,
    n: nat,
    k: int,
)
    requires
        0 <= k < n,
    ensures
        keeps_match(frontmatters[k], filters) ==> kept_matches(
            matches,
            frontmatters,
            filters,
            n,
        ).contains(matches[k]),
        forall|m: SearchMatch| #[trigger]
            kept_matches(matches, frontmatters, filters, n).contains(m) ==> exists|j: int|
                0 <= j < n && matches[j] == m && keeps_match(
                    #[trigger] frontmatters[j],
                    filters,
                ),
{
    if keeps_match(frontmatters[k], filters) {
        lemma_kept_matches(matches, frontmatters, filters, n, k);
    }
    lemma_kept_matches_only(matches, frontmatters, filters, n);
}

proof fn lemma_kept_matches(
    matches: Seq<SearchMatch>,
    frontmatters: Seq<Option<Frontmatter>>,
    filters: Filters,
    n: nat,
    k: int,
)
    requires
        0 <= k < n,
        keeps_match(frontmatters[k], filters),
    ensures
        kept_matches(matches, frontmatters, filters, n).contains(matches[k]),
    decreases n,
{
    let head = kept_matches(matches, frontmatters, filters, (n - 1) as nat);
    let all = kept_matches(matches, frontmatters, filters, n);
    if k == n - 1 {
        assert(all.last() == matches[k]);
    } else {
        lemma_kept_matches(matches, frontmatters, filters, (n - 1) as nat, k);
        let i = choose|i: int| 0 <= i < head.len() && head[i] == matches[k];
        assert(all[i] == matches[k]);
    }
}

proof fn lemma_kept_matches_only(
    matches: Seq<SearchMatch>,
    frontmatters: Seq<Option<Frontmatter>>,
    filters: Filters,
    n: nat,
)
    ensures
        forall|m: SearchMatch| #[trigger]
            kept_matches(matches, frontmatters, filters, n).contains(m) ==> exists|j: int|
                0 <= j < n && matches[j] == m && keeps_match(
                    #[trigger] frontmatters[j],
                    filters,
                ),
    decreases n,
{
    if n > 0 {
        lemma_kept_matches_only(matches, frontmatters, filters, (n - 1) as nat);
        let head = kept_matches(matches, frontmatters, filters, (n - 1) as nat);
        let all = kept_matches(matches, frontmatters, filters, n);
        assert forall|m: SearchMatch| #[trigger] all.contains(m) implies exists|j: int|
            0 <= j < n && matches[j] == m && keeps_match(#[trigger] frontmatters[j], filters) by {
            let i = choose|i: int| 0 <= i < all.len() && all[i] == m;
            if i < head.len() {
                assert(head[i] == m);
                assert(head.contains(m));
            } else {
                assert(keeps_match(frontmatters[n - 1], filters));
            }
        }
    }
}

/// Every line around a match is shown with its number.
pub proof fn law_lines_around_are_shown(
    acc: Seq<char>,
    lines: Seq<(u64, String)>,
    n: nat,
    k: int,
    p: Seq<char>,
)
    ensures
        text::contains(acc, p) ==> text::contains(with_context(acc, lines, n), p),
        0 <= k < n ==> text::contains(
            with_context(acc, lines, n),
            text::pad_before(text::dec(lines[k].0 as nat), 4) + " | "@ + lines[k].1@,
        ),
    decreases n,
{
    broadcast use {text::lemma_contains_first, text::lemma_contains_triple};

    if n > 0 {
        law_lines_around_are_shown(acc, lines, (n - 1) as nat, k, p);
    }
}

/// Every match is shown with its page and line.
pub proof fn law_matches_are_shown(
    acc: Seq<char>,
    matches: Seq<SearchMatch>,
    n: nat,
    k: int,
    p: Seq<char>,
)
    ensures
        text::contains(acc, p) ==> text::contains(with_matches(acc, matches, n), p),
        0 <= k < n ==> text::contains(
            with_matches(acc, matches, n),
            "  "@ + matches[k].slug@ + ".md (line "@,
        ) && text::contains(
            with_matches(acc, matches, n),
            ".md (line "@ + text::dec(matches[k].line_number as nat) + "):\n"@,
        ),
    decreases n,
{
    if n > 0 {
        law_matches_are_shown(acc, matches, (n - 1) as nat, k, p);
        let m = matches[n - 1];
        let head = with_matches(acc, matches, (n - 1) as nat);
        let between = if n > 1 {
            head + "\n"@
        } else {
            head
        };
        let line = between + "  "@ + m.slug@ + ".md (line "@ + text::dec(m.line_number as nat)
            + "):\n"@;
        let count = m.context_lines@.len();
        if text::contains(acc, p) {
            assert(text::contains(line, p)) by {
                broadcast use text::lemma_contains_first;

            }
            law_lines_around_are_shown(line, m.context_lines@, count, 0, p);
        }
        if 0 <= k < n {
            let page = "  "@ + matches[k].slug@ + ".md (line "@;
            let at = ".md (line "@ + text::dec(matches[k].line_number as nat) + "):\n"@;
            assert(text::contains(line, page) && text::contains(line, at)) by {
                broadcast use {text::lemma_contains_first, text::lemma_contains_triple};

            }
            law_lines_around_are_shown(line, m.context_lines@, count, 0, page);
            law_lines_around_are_shown(line, m.context_lines@, count, 0, at);
        }
    }
}

proof fn lemma_match_slugs_shown(acc: Seq<char>, matches: Seq<SearchMatch>, n: nat, k: int)
    requires
        0 <= k < n,
    ensures
        text::contains(with_match_slugs(acc, matches, n), matches[k].slug@ + "\n"@),
    decreases n,
{
    broadcast use {text::lemma_contains_first, text::lemma_contains_pair};

    if k < n - 1 {
        lemma_match_slugs_shown(acc, matches, (n - 1) as nat, k);
    }
}

/// Every match that was found is told to people with its page and line, and by its page where it is
/// quiet; where none was found the query is named.
pub proof fn law_found_matches_are_told(
    label: Seq<char>,
    query: Seq<char>,
    matches: Seq<SearchMatch>,
    quiet: bool,
    k: int,
)
    ensures
        0 <= k < matches.len() && !quiet ==> text::contains(
            content_text(label, query, matches, false, quiet),
            "  "@ + matches[k].slug@ + ".md (line "@,
        ),
        0 <= k < matches.len() && quiet ==> text::contains(
            content_text(label, query, matches, false, quiet),
            matches[k].slug@ + "\n"@,
        ),
        !quiet && matches.len() == 0 ==> text::contains(
            content_text(label, query, matches, false, quiet),
            "No knowledge pages match \""@ + query,
        ),
        !quiet ==> text::contains(
            content_text(label, query, matches, false, quiet),
            heading(label),
        ),
        content_text(label, query, matches, true, quiet) == printed_list(
            all_matches_json(matches, label),
        ),
{
    broadcast use {
        text::lemma_contains_self,
        text::lemma_contains_first,
        text::lemma_contains_pair,
    };

    law_matches_are_shown(heading(label), matches, matches.len(), k, heading(label));
    if 0 <= k < matches.len() {
        lemma_match_slugs_shown(""@, matches, matches.len(), k);
    }
}

/// The JSON of a match holds its page, its line and the repository that it is from; the JSON of a
/// list holds every match.
pub proof fn law_match_json_holds_the_match(matches: Seq<SearchMatch>, label: Seq<char>, k: int)
    requires
        0 <= k < matches.len(),
    ensures
        text::contains(all_matches_json(matches, label), match_json(matches[k], label)),
        text::contains(
            match_json(matches[k], label),
            json::json_quoted("slug"@) + ":"@ + json::json_quoted(matches[k].slug@),
        ),
        text::contains(
            match_json(matches[k], label),
            json::json_quoted("line_number"@) + ":"@ + text::dec(matches[k].line_number as nat),
        ),
        text::contains(
            match_json(matches[k], label),
            json::json_quoted("source"@) + ":"@ + json::json_quoted(label),
        ),
{
    let m = matches[k];
    let all = Seq::new(matches.len(), |i: int| match_json(matches[i], label));
    json::law_lists_and_objects_hold_all(all, Seq::empty(), k);
    let fields = seq![
        ("slug"@, json::json_quoted(m.slug@)),
        ("line_number"@, text::dec(m.line_number as nat)),
        (
            "context_lines"@,
            json::list_of(
                Seq::new(m.context_lines@.len(), |i: int| line_json(m.context_lines@[i])),
            ),
        ),
        ("source"@, json::json_quoted(label)),
    ];
    json::law_lists_and_objects_hold_all(Seq::empty(), fields, 0);
    json::law_lists_and_objects_hold_all(Seq::empty(), fields, 1);
    json::law_lists_and_objects_hold_all(Seq::empty(), fields, 3);
}

/// A page is shown as it is; in JSON it is shown exactly where it says something of itself, and
/// otherwise it is named.
pub proof fn law_pages_are_shown_as_they_are(
    label: &str,
    slug: &str,
    content: &str,
    frontmatter: Option<&Frontmatter>,
    as_json: bool,
    quiet: bool,
    r: Result<String, String>,
)
    requires
        call_ensures(show, (label, slug, content, frontmatter, as_json, quiet), r),
    ensures
        r is Err <==> as_json && frontmatter is None,
        !as_json && quiet ==> (r matches Ok(out) && out@ == content@),
        !as_json && !quiet ==> (r matches Ok(out) && text::contains(
            out@,
            heading(label@) + content@,
        )),
        r matches Err(message) ==> text::contains(message@, "Page '"@ + slug@),
        as_json && frontmatter is Some ==> (r matches Ok(out) && out@ == json::printed(
            page_json(slug@, *frontmatter->0, label@),
        )),
{
    broadcast use {text::lemma_contains_self, text::lemma_contains_first};

}

/// The row of a page shows its slug, its title and tags as they fit, and when it was updated.
pub proof fn law_rows_show_the_page(p: PageInfo, title: Seq<char>, tags: Seq<char>)
    ensures
        text::has_prefix(page_row(p, title, tags), p.slug@),
        text::contains(page_row(p, title, tags), title),
        text::contains(page_row(p, title, tags), tags),
        text::has_suffix(page_row(p, title, tags), " "@ + p.frontmatter.updated@ + "\n"@),
{
    broadcast use {
        text::lemma_contains_self,
        text::lemma_contains_first,
        text::lemma_contains_second,
    };

    let row = page_row(p, title, tags);
    assert(row.take(p.slug@.len() as int) =~= p.slug@);
    let head = text::pad(p.slug@, 30) + " "@ + text::pad(title, 30) + " "@ + text::pad(tags, 20);
    text::lemma_regroup(head, " "@, p.frontmatter.updated@, "\n"@, head);
    text::lemma_suffix_of_sum(head, " "@ + p.frontmatter.updated@ + "\n"@);
}

proof fn lemma_page_rows(
    acc: Seq<char>,
    pages: Seq<PageInfo>,
    fitted: Seq<(String, String)>,
    picked: Seq<int>,
    n: nat,
    k: int,
    p: Seq<char>,
)
    ensures
        text::contains(acc, p) ==> text::contains(
            with_page_rows(acc, pages, fitted, picked, n),
            p,
        ),
        0 <= k < n ==> text::contains(
            with_page_rows(acc, pages, fitted, picked, n),
            page_row(pages[picked[k]], fitted[picked[k]].0@, fitted[picked[k]].1@),
        ),
    decreases n,
{
    broadcast use {
        text::lemma_contains_self,
        text::lemma_contains_first,
        text::lemma_contains_second,
    };

    if n > 0 {
        lemma_page_rows(acc, pages, fitted, picked, (n - 1) as nat, k, p);
    }
}

/// Every page that passes has its row in the list, quiet or not, and unless it is quiet the list
/// tells how many there are.
pub proof fn law_picked_pages_are_listed(
    label: Seq<char>,
    pages: Seq<PageInfo>,
    fitted: Seq<(String, String)>,
    picked: Seq<int>,
    quiet: bool,
    k: int,
)
    ensures
        0 <= k < picked.len() ==> text::contains(
            list_text(label, pages, fitted, picked, quiet),
            page_row(pages[picked[k]], fitted[picked[k]].0@, fitted[picked[k]].1@),
        ),
        !quiet && picked.len() > 0 ==> text::contains(
            list_text(label, pages, fitted, picked, quiet),
            "\n"@ + text::dec(picked.len()) + " page(s)\n"@,
        ),
        !quiet && picked.len() == 0 ==> text::contains(
            list_text(label, pages, fitted, picked, quiet),
            "No knowledge pages found.\n"@,
        ),
{
    broadcast use {
        text::lemma_contains_self,
        text::lemma_contains_first,
        text::lemma_contains_second,
        text::lemma_contains_triple,
    };

    let head = heading(label) + text::pad("SLUG"@, 30) + " "@ + text::pad("TITLE"@, 30) + " "@
        + text::pad("TAGS"@, 20) + " UPDATED\n"@ + text::repeated('-', 90) + "\n"@;
    lemma_page_rows(head, pages, fitted, picked, picked.len(), k, ""@);
    lemma_page_rows(""@, pages, fitted, picked, picked.len(), k, ""@);
}

} // verus!
