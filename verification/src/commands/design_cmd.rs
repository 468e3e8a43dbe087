//! The design command: a session that writes a design document.

use crate::assistant::Assistant;
use crate::text;
use crate::text::{
    chars_of, dec_i64, join_strs, occurs_at_chars, own, starts_with, string_of,
};
use vstd::prelude::*;
use vstd::slice::slice_subrange;

verus! {

/// Where a text occurs, from the `i`-th character on, or the length where it does not.
pub open spec fn find_from(s: Seq<char>, p: Seq<char>, i: int) -> int
    decreases s.len() - i,
{
    if i < 0 || i >= s.len() || i + p.len() > s.len() {
        s.len() as int
    } else if text::occurs_at(s, p, i) {
        i
    } else {
        find_from(s, p, i + 1)
    }
}

/// A text without the line ends at its start.
pub open spec fn skip_newlines(s: Seq<char>) -> Seq<char>
    decreases s.len(),
{
    if s.len() > 0 && s[0] == '\n' {
        skip_newlines(s.drop_first())
    } else {
        s
    }
}

/// A document without the frontmatter between two lines of dashes at its start. Where
/// the second is missing the document is left as it is.
pub open spec fn without_frontmatter(content: Seq<char>) -> Seq<char> {
    if !text::has_prefix(content, "---"@) {
        content
    } else {
        let end = find_from(content, "\n---"@, 3);
        if end >= content.len() {
            content
        } else {
            skip_newlines(content.skip(end + 4))
        }
    }
}

/// Strip YAML frontmatter from the beginning of a markdown document.
pub fn strip_frontmatter(content: &str) -> (r: String)
    ensures
        r@ == without_frontmatter(content@),
{
    if !starts_with(content, "---") {
        return own(content);
    }
    let cs = chars_of(content);
    let mark = chars_of("\n---");
    proof {
        reveal_strlit("---");
        reveal_strlit("\n---");
    }
    let mut i: usize = 3;
    while i < cs.len() && cs.len() - i >= 4 && !occurs_at_chars(
        cs.as_slice(),
        mark.as_slice(),
        i,
    )
        invariant
            3 <= i <= cs@.len(),
            cs@ == content@,
            mark@ == "\n---"@,
            mark@.len() == 4,
            find_from(content@, "\n---"@, 3) == find_from(content@, "\n---"@, i as int),
        decreases cs@.len() - i,
    {
        i = i + 1;
    }
    if i >= cs.len() || cs.len() - i < 4 {
        return own(content);
    }
    let mut start: usize = i + 4;
    assert(cs@.skip(start as int) =~= content@.skip(i + 4));
    while start < cs.len() && cs[start] == '\n'
        invariant
            i + 4 <= start <= cs@.len(),
            cs@ == content@,
            skip_newlines(content@.skip(i + 4)) == skip_newlines(cs@.skip(start as int)),
        decreases cs@.len() - start,
    {
        assert(cs@.skip(start as int).drop_first() =~= cs@.skip(start + 1));
        start = start + 1;
    }
    let rest = slice_subrange(cs.as_slice(), start, cs.len());
    assert(rest@ =~= cs@.skip(start as int));
    string_of(rest)
}

/// The arguments of the session. A document that is gone on with takes precedence over a
/// description.
pub open spec fn session_arguments(
    description: Option<Seq<char>>,
    issue: Option<int>,
    gh_issue: Option<int>,
    continue_slug: Option<Seq<char>>,
) -> Seq<Seq<char>> {
    let a: Seq<Seq<char>> = match continue_slug {
        Some(slug) => Seq::empty().push("--continue "@ + slug),
        None => match description {
            Some(d) => Seq::empty().push("\""@ + d + "\""@),
            None => Seq::empty(),
        },
    };
    let b = match issue {
        Some(id) => a.push("--issue "@ + text::dec_int(id)),
        None => a,
    };
    match gh_issue {
        Some(id) => b.push("--gh-issue "@ + text::dec_int(id)),
        None => b,
    }
}

/// The prompt of the session: the body of the template, with the arguments in front of
/// it where there are any.
pub open spec fn session_prompt(arguments: Seq<Seq<char>>, body: Seq<char>) -> Seq<char> {
    if text::join(arguments, " "@).len() == 0 {
        body
    } else {
        "ARGUMENTS: "@ + text::join(arguments, " "@) + "\n\n"@ + body
    }
}

/// What is said inside a session that could do this itself.
pub open spec fn already_inside(assistant: Assistant) -> Seq<char> {
    "Already inside "@ + assistant.title@ + " — use /design instead."@
}

/// What is said where the session cannot be started.
pub open spec fn no_assistant(assistant: Assistant) -> Seq<char> {
    "`"@ + assistant.program@ + "` CLI not found. Install it:\n\n  npm install -g "@
        + assistant.npm_package@ + "\n\n  Or: brew install "@ + assistant.brew_package@
}

/// The model of an optional number.
pub open spec fn opt_int(n: Option<i64>) -> Option<int> {
    match n {
        Some(i) => Some(i as int),
        None => None,
    }
}

fn push_part(parts: &mut Vec<String>, label: &str, value: &str, behind: &str)
    ensures
        text::strs(final(parts)@) == text::strs(old(parts)@).push(label@ + value@ + behind@),
{
    let mut part = own(label);
    part.append(value);
    part.append(behind);
    proof {
        text::lemma_strs_push(parts@, part);
    }
    parts.push(part);
}

/// What the design command does.
pub enum DesignTask {
    /// Print the text as an error, and exit with failure.
    Refuse(String),
    /// Start a session with the prompt.
    Launch(String),
}

/// `crosslink design`: a session with the prompt of the design skill, whose template is
/// given. Inside a session the user is sent to the skill itself.
pub fn run(
    assistant: Assistant,
    inside_session: bool,
    assistant_available: bool,
    template: &str,
    description: Option<&str>,
    issue: Option<i64>,
    gh_issue: Option<i64>,
    continue_slug: Option<&str>,
) -> (r: Result<DesignTask, String>)
    ensures
        if inside_session {
            r matches Ok(DesignTask::Refuse(say)) && say@ == already_inside(assistant)
        } else if !assistant_available {
            r matches Err(message) && message@ == no_assistant(assistant)
        } else {
            r matches Ok(DesignTask::Launch(prompt)) && prompt@ == session_prompt(
                session_arguments(
                    text::opt_view(description),
                    opt_int(issue),
                    opt_int(gh_issue),
                    text::opt_view(continue_slug),
                ),
                without_frontmatter(template@),
            )
        },
{
    if inside_session {
        let mut say = own("Already inside ");
        say.append(assistant.title);
        say.append(" — use /design instead.");
        return Ok(DesignTask::Refuse(say));
    }
    if !assistant_available {
        let mut message = own("`");
        message.append(assistant.program);
        message.append("` CLI not found. Install it:\n\n  npm install -g ");
        message.append(assistant.npm_package);
        message.append("\n\n  Or: brew install ");
        message.append(assistant.brew_package);
        return Err(message);
    }
    proof {
        reveal_strlit("");
    }
    let mut parts: Vec<String> = Vec::new();
    assert(text::strs(parts@) =~= Seq::<Seq<char>>::empty());
    if let Some(slug) = continue_slug {
        push_part(&mut parts, "--continue ", slug, "");
        assert("--continue "@ + slug@ + ""@ =~= "--continue "@ + slug@);
    } else if let Some(d) = description {
        push_part(&mut parts, "\"", d, "\"");
    }
    if let Some(id) = issue {
        let n = dec_i64(id);
        push_part(&mut parts, "--issue ", n.as_str(), "");
        assert("--issue "@ + n@ + ""@ =~= "--issue "@ + n@);
    }
    if let Some(id) = gh_issue {
        let n = dec_i64(id);
        push_part(&mut parts, "--gh-issue ", n.as_str(), "");
        assert("--gh-issue "@ + n@ + ""@ =~= "--gh-issue "@ + n@);
    }
    let arguments = join_strs(&parts, " ");
    let body = strip_frontmatter(template);
    if arguments.as_str().is_empty() {
        return Ok(DesignTask::Launch(body));
    }
    let mut prompt = own("ARGUMENTS: ");
    prompt.append(arguments.as_str());
    prompt.append("\n\n");
    prompt.append(body.as_str());
    Ok(DesignTask::Launch(prompt))
}

proof fn lemma_no_leading_newline(s: Seq<char>)
    ensures
        skip_newlines(s).len() > 0 ==> skip_newlines(s)[0] != '\n',
    decreases s.len(),
{
    if s.len() > 0 && s[0] == '\n' {
        lemma_no_leading_newline(s.drop_first());
    }
}

/// What is left once frontmatter was stripped does not begin with an empty line.
pub proof fn law_stripped_body_starts_at_text(content: Seq<char>)
    requires
        without_frontmatter(content) != content,
    ensures
        without_frontmatter(content).len() > 0 ==> without_frontmatter(content)[0] != '\n',
{
    let end = find_from(content, "\n---"@, 3);
    lemma_no_leading_newline(content.skip(end + 4));
}

/// Inside a session nothing is started; without an assistant that is an error; otherwise a session
/// is started.
pub proof fn law_sessions_are_started_outside(
    assistant: Assistant,
    inside_session: bool,
    assistant_available: bool,
    template: &str,
    description: Option<&str>,
    issue: Option<i64>,
    gh_issue: Option<i64>,
    continue_slug: Option<&str>,
    r: Result<DesignTask, String>,
)
    requires
        call_ensures(
            run,
            (
                assistant,
                inside_session,
                assistant_available,
                template,
                description,
                issue,
                gh_issue,
                continue_slug,
            ),
            r,
        ),
    ensures
        r matches Ok(DesignTask::Refuse(_)) <==> inside_session,
        r is Err <==> !inside_session && !assistant_available,
        r matches Ok(DesignTask::Launch(_)) <==> !inside_session && assistant_available,
        r matches Ok(DesignTask::Refuse(say)) ==> text::contains(say@, assistant.title@),
        r matches Err(message) ==> text::contains(message@, assistant.program@) && text::contains(
            message@,
            "npm install -g "@ + assistant.npm_package@,
        ) && text::has_suffix(message@, assistant.brew_package@),
        r matches Ok(DesignTask::Launch(prompt)) ==> text::has_suffix(
            prompt@,
            without_frontmatter(template@),
        ),
{
    broadcast use {
        text::lemma_contains_self,
        text::lemma_contains_first,
        text::lemma_contains_second,
        text::lemma_contains_pair,
        text::lemma_suffix_of_sum,
    };

    if !inside_session && !assistant_available {
        let label = "` CLI not found. Install it:\n\n  npm install -g "@;
        let short = "npm install -g "@;
        reveal_strlit("` CLI not found. Install it:\n\n  npm install -g ");
        reveal_strlit("npm install -g ");
        assert(label.skip(32) =~= short);
        assert(label =~= label.take(32) + short);
        let head = "`"@ + assistant.program@;
        text::lemma_regroup(head, label.take(32), short, assistant.npm_package@, head);
        assert(head + label + assistant.npm_package@ == (head + label.take(32)) + short
            + assistant.npm_package@);
        text::lemma_contains_pair(head + label.take(32), short, assistant.npm_package@);
    }
    let body = without_frontmatter(template@);
    assert(body.skip(0) =~= body);
}

/// Everything that a session is asked for is among its arguments. A description counts where no
/// document is gone on with.
pub proof fn law_requests_are_arguments(
    description: Option<Seq<char>>,
    issue: Option<int>,
    gh_issue: Option<int>,
    continue_slug: Option<Seq<char>>,
)
    ensures
        ({
            let arguments = session_arguments(description, issue, gh_issue, continue_slug);
            &&& continue_slug matches Some(slug) ==> arguments.len() > 0 && arguments[0]
                == "--continue "@ + slug
            &&& continue_slug is None ==> (description matches Some(d) ==> arguments.len() > 0
                && arguments[0] == "\""@ + d + "\""@)
            &&& issue matches Some(id) ==> arguments.contains("--issue "@ + text::dec_int(id))
            &&& gh_issue matches Some(id) ==> arguments.len() > 0 && arguments.last()
                == "--gh-issue "@ + text::dec_int(id)
            &&& arguments.len() == (if continue_slug is Some || description is Some {
                1int
            } else {
                0
            }) + (if issue is Some {
                1int
            } else {
                0
            }) + (if gh_issue is Some {
                1int
            } else {
                0
            })
        }),
{
    let arguments = session_arguments(description, issue, gh_issue, continue_slug);
    if let Some(id) = issue {
        let i: int = if continue_slug is Some || description is Some {
            1
        } else {
            0
        };
        assert(arguments[i] == "--issue "@ + text::dec_int(id));
    }
}

/// The prompt holds every argument, and what stands before the body is only the arguments.
pub proof fn law_arguments_are_in_the_prompt(arguments: Seq<Seq<char>>, body: Seq<char>, k: int)
    requires
        0 <= k < arguments.len(),
        arguments[k].len() > 0,
    ensures
        text::contains(session_prompt(arguments, body), arguments[k]),
        text::has_prefix(session_prompt(arguments, body), "ARGUMENTS: "@),
        text::has_suffix(session_prompt(arguments, body), "\n\n"@ + body),
        session_prompt(Seq::empty(), body) == body,
{
    broadcast use {
        text::lemma_contains_self,
        text::lemma_contains_first,
        text::lemma_contains_second,
        text::lemma_suffix_of_pair,
    };

    let joined = text::join(arguments, " "@);
    text::law_joined_text_holds_its_parts(arguments, " "@, k);
    assert(joined.len() > 0) by {
        let i = choose|i: int| text::occurs_at(joined, arguments[k], i);
    }
    let told = session_prompt(arguments, body);
    assert(told.take("ARGUMENTS: "@.len() as int) =~= "ARGUMENTS: "@);
    assert(text::join(Seq::<Seq<char>>::empty(), " "@).len() == 0);
}

/// A document without dashes at its start is left as it is. One between dashes loses them and what
/// stands between, and no more than the empty lines behind.
pub proof fn law_only_frontmatter_is_stripped(front: Seq<char>, body: Seq<char>, content: Seq<char>)
    requires
        !text::contains(front + "\n--"@, "\n---"@),
        body.len() > 0 && body[0] != '\n',
    ensures
        without_frontmatter("---"@ + front + "\n---"@ + "\n"@ + body) == body,
        !text::has_prefix(content, "---"@) ==> without_frontmatter(content) == content,
        text::has_suffix(content, without_frontmatter(content)),
{
    reveal_strlit("---");
    reveal_strlit("\n---");
    reveal_strlit("\n");
    let whole = "---"@ + front + "\n---"@ + "\n"@ + body;
    reveal_strlit("\n--");
    let inner = front + "\n--"@;
    assert(whole.take(3) =~= "---"@);
    let at = 3 + front.len() as int;
    assert(whole.subrange(at, at + 4) =~= "\n---"@);
    assert forall|i: int| 3 <= i < at implies !text::occurs_at(whole, "\n---"@, i) by {
        if text::occurs_at(whole, "\n---"@, i) {
            assert(inner.subrange(i - 3, i + 1) =~= whole.subrange(i, i + 4));
            assert(text::occurs_at(inner, "\n---"@, i - 3));
        }
    }
    lemma_find_from(whole, "\n---"@, 3, at);
    assert(whole.skip(at + 4) =~= seq!['\n'] + body);
    assert(whole.skip(at + 4).drop_first() =~= body);
    assert(skip_newlines(body) == body);
    assert(skip_newlines(whole.skip(at + 4)) == body);
    if text::has_prefix(content, "---"@) {
        let end = find_from(content, "\n---"@, 3);
        if 0 <= end < content.len() {
            lemma_find_from_range(content, "\n---"@, 3);
            lemma_skip_newlines(content.skip(end + 4));
            let rest = content.skip(end + 4);
            let left = skip_newlines(rest);
            assert(content.skip(content.len() - left.len()) =~= rest.skip(
                rest.len() - left.len(),
            ));
        } else {
            lemma_find_from_range(content, "\n---"@, 3);
        }
    }
    assert(content.skip(0) =~= content);
}

proof fn lemma_find_from(s: Seq<char>, p: Seq<char>, i: int, at: int)
    requires
        0 <= i <= at,
        at + p.len() <= s.len(),
        p.len() > 0,
        text::occurs_at(s, p, at),
        forall|k: int| i <= k < at ==> !text::occurs_at(s, p, k),
    ensures
        find_from(s, p, i) == at,
    decreases at - i,
{
    if i < at {
        lemma_find_from(s, p, i + 1, at);
    }
}

proof fn lemma_find_from_range(s: Seq<char>, p: Seq<char>, i: int)
    requires
        0 <= i,
    ensures
        find_from(s, p, i) == s.len() || (i <= find_from(s, p, i) && find_from(s, p, i) + p.len()
            <= s.len()),
    decreases s.len() - i,
{
    if i < s.len() && i + p.len() <= s.len() && !text::occurs_at(s, p, i) {
        lemma_find_from_range(s, p, i + 1);
    }
}

proof fn lemma_skip_newlines(s: Seq<char>)
    ensures
        skip_newlines(s).len() <= s.len(),
        s.skip(s.len() - skip_newlines(s).len()) == skip_newlines(s),
    decreases s.len(),
{
    if s.len() > 0 && s[0] == '\n' {
        lemma_skip_newlines(s.drop_first());
        let left = skip_newlines(s);
        assert(s.skip(s.len() - left.len()) =~= s.drop_first().skip(
            s.drop_first().len() - left.len(),
        ));
    } else {
        assert(s.skip(0) =~= s);
    }
}

} // verus!
