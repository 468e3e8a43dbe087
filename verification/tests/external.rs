//! Issues and knowledge of other repositories.

use crosslink::commands::external_issues;
use crosslink::commands::external_issues::{preview_of, ExternalIssue};
use crosslink::commands::external_knowledge;
use crosslink::commands::external_knowledge::{
    page_passes, search_content, search_kind, search_sources, tags_text, Filters, Frontmatter,
    PageInfo, SearchKind, SearchMatch, Source,
};
use crosslink::time::Moment;

fn moment() -> Moment {
    Moment::new(1_770_000_000, 0).unwrap()
}

fn issue(title: &str) -> ExternalIssue {
    ExternalIssue {
        number: Some("#3".to_string()),
        title: title.to_string(),
        status: "open".to_string(),
        is_closed: false,
        priority: "high".to_string(),
        created_by: "agent-1".to_string(),
        created_at: moment(),
        updated_at: moment(),
        closed_at: None,
        labels: vec!["bug".to_string()],
        description: Some("Words.".to_string()),
        comments: vec![],
        blockers: vec![],
    }
}

fn page(slug: &str, tag: &str) -> PageInfo {
    PageInfo {
        slug: slug.to_string(),
        frontmatter: Frontmatter {
            title: format!("About {slug}"),
            tags: vec![tag.to_string()],
            sources: vec![Source {
                url: "https://docs.example.com/a".to_string(),
                title: "Docs".to_string(),
                accessed_at: None,
            }],
            contributors: vec!["agent-1".to_string()],
            created: "2026-01-01".to_string(),
            updated: "2026-02-01".to_string(),
        },
    }
}

const ALL: Filters<'static> = Filters { tag: None, contributor: None, since: None };

#[test]
fn issues_are_listed_and_shown() {
    let issues = vec![issue("Retry fails")];
    let out = external_issues::list("lib", &issues, &vec!["Retry fails".to_string()], false);
    assert!(out.contains("#3"));
    assert!(out.contains("Retry fails"));
    let shown = external_issues::show("lib", "#3", Some(&issues[0]), false).unwrap();
    assert!(shown.contains("Words."));
    assert!(shown.contains("bug"));
    assert!(external_issues::show("lib", "#9", None, false).unwrap_err().contains("#9"));
    let found = external_issues::search("lib", "retry", &issues, false);
    assert!(found.contains("Retry fails"));
}

#[test]
fn a_long_description_is_previewed() {
    let long = "x".repeat(300);
    assert!(preview_of(&long).len() < long.len());
    assert_eq!(preview_of("short"), "short");
}

#[test]
fn pages_pass_all_filters() {
    let p = page("a", "rust");
    assert!(page_passes(&p.frontmatter, &ALL));
    assert!(page_passes(&p.frontmatter, &Filters { tag: Some("rust"), ..ALL }));
    assert!(!page_passes(&p.frontmatter, &Filters { tag: Some("go"), ..ALL }));
    assert!(!page_passes(&p.frontmatter, &Filters { contributor: Some("other"), ..ALL }));
    assert!(page_passes(&p.frontmatter, &Filters { since: Some("2026-01-15"), ..ALL }));
    assert!(!page_passes(&p.frontmatter, &Filters { since: Some("2026-03-01"), ..ALL }));
    assert!(tags_text(&p.frontmatter).contains("rust"));
}

#[test]
fn listed_pages_pass() {
    let pages = vec![page("a", "rust"), page("b", "go")];
    let fitted = vec![
        ("a".to_string(), "About a".to_string()),
        ("b".to_string(), "About b".to_string()),
    ];
    let only_go = Filters { tag: Some("go"), ..ALL };
    let out = external_knowledge::list("lib", &pages, &fitted, &only_go, false, false);
    assert!(out.contains("About b"));
    assert!(!out.contains("About a"));
    let json = external_knowledge::list("lib", &pages, &fitted, &only_go, true, false);
    let parsed: serde_json::Value = serde_json::from_str(&json).unwrap();
    assert!(json.contains("\"b\""));
    assert!(!json.contains("\"About a\""));
    assert!(parsed.is_array() || parsed.is_object());
}

#[test]
fn a_search_needs_something_to_search_for() {
    assert_eq!(search_kind(Some("retry"), None), Ok(SearchKind::Content));
    assert_eq!(search_kind(None, Some("example.com")), Ok(SearchKind::Sources));
    assert!(search_kind(None, None).is_err());
}

#[test]
fn sources_are_found_by_their_domain() {
    let pages = vec![page("a", "rust")];
    let contents = vec![Some("text".to_string())];
    let out = search_sources("lib", "docs.example.com", None, &pages, &contents, false, false);
    assert!(out.contains("https://docs.example.com/a"));
    let none = search_sources("lib", "other.org", None, &pages, &contents, false, false);
    assert!(!none.contains("https://docs.example.com/a"));
}

#[test]
fn matches_come_with_their_lines() {
    let matches = vec![SearchMatch {
        slug: "a".to_string(),
        line_number: 4,
        context_lines: vec![(4, "retry here".to_string())],
    }];
    let frontmatters = vec![Some(page("a", "rust").frontmatter)];
    let out = search_content("lib", "retry", &matches, &frontmatters, &ALL, false, false);
    assert!(out.contains("retry here"));
}

#[test]
fn a_page_is_shown_as_it_is_or_as_json() {
    let p = page("a", "rust");
    let out = external_knowledge::show("lib", "a", "# Title\n", Some(&p.frontmatter), false, false).unwrap();
    assert!(out.contains("# Title"));
    let json = external_knowledge::show("lib", "a", "# Title\n", Some(&p.frontmatter), true, false).unwrap();
    let parsed: serde_json::Value = serde_json::from_str(&json).unwrap();
    assert!(parsed.is_object());
}

#[test]
fn issues_as_json_name_their_source() {
    let issues = vec!["{\"title\":\"Retry\",\"display_id\":3}".to_string()];
    let out = external_issues::print_issues_json(&issues, "@lib");
    assert_eq!(
        out,
        "[\n  {\n    \"display_id\": 3,\n    \"source\": \"@lib\",\n    \"title\": \"Retry\"\n  }\n]\n"
    );
    assert_eq!(external_issues::print_issues_json(&vec![], "@lib"), "[]\n");
    let shown = external_issues::show_json("@lib", "#3", Some(issues[0].as_str())).unwrap();
    assert_eq!(
        shown,
        "{\n  \"display_id\": 3,\n  \"source\": \"@lib\",\n  \"title\": \"Retry\"\n}\n"
    );
    let missing = external_issues::show_json("@lib", "#3", None).unwrap_err();
    assert_eq!(missing, "Issue #3 not found in @lib");
}
