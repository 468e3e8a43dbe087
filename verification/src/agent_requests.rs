//! Requests to agents.
//!
//! A driver writes a request into a directory of the agent on the hub; the agent acts
//! on it and writes an acknowledgement beside it.

use crate::order;
use crate::order::order_of;
use crate::paths;
use crate::paths::join_path;
use crate::text;
use crate::text::{
    chars_of, ends_with, eq_str, own, rfind_char_in, string_of, to_ascii_lower,
};
use vstd::prelude::*;
use vstd::slice::slice_subrange;

verus! {

/// What a driver can request of an agent.
#[derive(Debug, Clone, Copy, PartialEq, Eq, Structural)]
pub enum RequestKind {
    /// Exit once the tool in use is done.
    Kill,
    /// Pause between ticks.
    Pause,
    /// Go on.
    Resume,
    /// Work on another issue.
    Reprioritise,
}

/// The kind that a word stands for.
pub open spec fn kind_named(s: Seq<char>) -> Option<RequestKind> {
    if s == "kill"@ {
        Some(RequestKind::Kill)
    } else if s == "pause"@ {
        Some(RequestKind::Pause)
    } else if s == "resume"@ {
        Some(RequestKind::Resume)
    } else if s == "reprioritise"@ || s == "reprioritize"@ {
        Some(RequestKind::Reprioritise)
    } else {
        None
    }
}

impl RequestKind {
    /// Parse a lowercase word.
    pub fn parse(s: &str) -> (r: Result<RequestKind, String>)
        ensures
            match r {
                Ok(kind) => kind_named(s@) == Some(kind),
                Err(message) => kind_named(s@) is None && message@ == "unknown request kind '"@ + s@
                    + "' (expected kill|pause|resume|reprioritise)"@,
            },
    {
        if eq_str(s, "kill") {
            Ok(RequestKind::Kill)
        } else if eq_str(s, "pause") {
            Ok(RequestKind::Pause)
        } else if eq_str(s, "resume") {
            Ok(RequestKind::Resume)
        } else if eq_str(s, "reprioritise") || eq_str(s, "reprioritize") {
            Ok(RequestKind::Reprioritise)
        } else {
            let mut message = own("unknown request kind '");
            message.append(s);
            message.append("' (expected kill|pause|resume|reprioritise)");
            Err(message)
        }
    }
}

/// What some requests are about: the issue, by the number that the driver saw.
#[derive(Debug, Clone, Copy, PartialEq, Eq, Structural)]
pub struct RequestSubject {
    pub issue_id: Option<i64>,
}

impl Default for RequestSubject {
    fn default() -> (r: Self)
        ensures
            r.issue_id is None,
    {
        RequestSubject { issue_id: None }
    }
}

impl RequestSubject {
    /// Whether the request is about nothing in particular.
    pub fn is_empty(&self) -> (r: bool)
        ensures
            r == (self.issue_id is None),
    {
        self.issue_id.is_none()
    }
}

/// A request.
#[derive(Debug, Clone, PartialEq, Eq)]
pub struct AgentRequest {
    /// Sorts by time; also the stem of the file.
    pub request_id: String,
    pub kind: RequestKind,
    pub subject: RequestSubject,
    /// Fingerprint of the driver.
    pub requested_by: String,
    pub requested_at: String,
    pub reason: Option<String>,
}

/// What the agent wrote after handling a request.
#[derive(Debug, Clone, PartialEq, Eq)]
pub struct AgentRequestAck {
    pub request_id: String,
    pub ack_at: String,
    /// Whether the agent did what was requested.
    pub acted: bool,
    /// What happened, in words.
    pub result: String,
    pub notes: Option<String>,
}

/// A request with its acknowledgement, if one has been written.
#[derive(Debug, Clone, PartialEq)]
pub struct RequestWithAck {
    pub request: AgentRequest,
    pub ack: Option<AgentRequestAck>,
}

// ---------------------------------------------------------------------------
// Paths
// ---------------------------------------------------------------------------

/// The directory of an agent's requests, from the root of the hub cache.
pub open spec fn requests_dir_of(agent_id: Seq<char>) -> Seq<char> {
    paths::joined(paths::joined("agents"@, agent_id), "requests"@)
}

/// The directory of an agent's requests, from the root of the hub cache.
pub fn requests_dir(agent_id: &str) -> (r: String)
    ensures
        r@ == requests_dir_of(agent_id@),
{
    join_path(join_path("agents", agent_id).as_str(), "requests")
}

/// The path of a request, from the root of the hub cache.
pub fn request_path(agent_id: &str, request_id: &str) -> (r: String)
    ensures
        r@ == paths::joined(requests_dir_of(agent_id@), request_id@ + ".json"@),
{
    let mut name = own(request_id);
    name.append(".json");
    join_path(requests_dir(agent_id).as_str(), name.as_str())
}

/// The name of the file that acknowledges a request.
pub open spec fn ack_name(request_id: Seq<char>) -> Seq<char> {
    request_id + ".ack.json"@
}

/// The name of the file that acknowledges a request.
pub fn ack_file_name(request_id: &str) -> (r: String)
    ensures
        r@ == ack_name(request_id@),
{
    let mut name = own(request_id);
    name.append(".ack.json");
    name
}

/// The extension of a file name: what is behind the last dot, unless that is the first
/// character.
pub open spec fn extension(name: Seq<char>) -> Option<Seq<char>> {
    let dot = text::rfind_char(name, '.');
    if dot <= 0 {
        None
    } else {
        Some(name.skip(dot + 1))
    }
}

/// Whether a file holds a request: it has the extension of JSON and is not an
/// acknowledgement, whatever the case.
pub open spec fn holds_request(name: Seq<char>) -> bool {
    !text::has_suffix(text::ascii_lower(name), ".ack.json"@) && match extension(name) {
        Some(e) => text::ascii_lower(e) == "json"@,
        None => false,
    }
}

/// Tests whether a file holds a request, by its name.
pub fn is_request_file(name: &str) -> (r: bool)
    ensures
        r == holds_request(name@),
{
    if ends_with(to_ascii_lower(name).as_str(), ".ack.json") {
        return false;
    }
    let cs = chars_of(name);
    match rfind_char_in(cs.as_slice(), '.') {
        Some(dot) => {
            if dot == 0 {
                return false;
            }
            let e = string_of(slice_subrange(cs.as_slice(), dot + 1, cs.len()));
            assert(e@ =~= name@.skip(dot + 1));
            eq_str(to_ascii_lower(e.as_str()).as_str(), "json")
        },
        None => false,
    }
}

// ---------------------------------------------------------------------------
// Scanning
// ---------------------------------------------------------------------------

/// The acknowledgement in the file of this name, from the `n`-th on.
pub open spec fn ack_in(acks: Seq<(String, AgentRequestAck)>, name: Seq<char>, n: nat) -> Option<
    AgentRequestAck,
>
    decreases acks.len() - n,
{
    if n >= acks.len() {
        None
    } else if acks[n as int].0@ == name {
        Some(acks[n as int].1)
    } else {
        ack_in(acks, name, n + 1)
    }
}

/// The model of an acknowledgement.
pub open spec fn ack_view(a: AgentRequestAck) -> (Seq<char>, Seq<char>, bool, Seq<char>, Option<
    Seq<char>,
>) {
    (a.request_id@, a.ack_at@, a.acted, a.result@, text::opt_str(a.notes))
}

/// The model of a request.
pub open spec fn request_view(r: AgentRequest) -> (
    Seq<char>,
    RequestKind,
    RequestSubject,
    Seq<char>,
    Seq<char>,
    Option<Seq<char>>,
) {
    (
        r.request_id@,
        r.kind,
        r.subject,
        r.requested_by@,
        r.requested_at@,
        text::opt_str(r.reason),
    )
}

/// Whether a pair is a request and its acknowledgement, if it has one.
pub open spec fn is_pair(
    pair: RequestWithAck,
    request: AgentRequest,
    acks: Seq<(String, AgentRequestAck)>,
) -> bool {
    request_view(pair.request) == request_view(request) && match ack_in(
        acks,
        ack_name(request.request_id@),
        0,
    ) {
        Some(a) => pair.ack is Some && ack_view(pair.ack->0) == ack_view(a),
        None => pair.ack is None,
    }
}

/// The requests in files that hold one, among the first `n` files.
pub open spec fn requests_in(files: Seq<(String, AgentRequest)>, n: nat) -> Seq<AgentRequest>
    decreases n,
{
    if n == 0 {
        Seq::empty()
    } else {
        let head = requests_in(files, (n - 1) as nat);
        if holds_request(files[n - 1].0@) {
            head.push(files[n - 1].1)
        } else {
            head
        }
    }
}

/// The identifiers of some requests.
pub open spec fn ids(requests: Seq<AgentRequest>) -> Seq<Seq<char>> {
    Seq::new(requests.len(), |i: int| requests[i].request_id@)
}

fn clone_request(r: &AgentRequest) -> (c: AgentRequest)
    ensures
        request_view(c) == request_view(*r),
{
    AgentRequest {
        request_id: own(r.request_id.as_str()),
        kind: r.kind,
        subject: r.subject,
        requested_by: own(r.requested_by.as_str()),
        requested_at: own(r.requested_at.as_str()),
        reason: crate::identity::clone_opt(&r.reason),
    }
}

fn find_ack(acks: &Vec<(String, AgentRequestAck)>, name: &str) -> (r: Option<AgentRequestAck>)
    ensures
        match ack_in(acks@, name@, 0) {
            Some(a) => r is Some && ack_view(r->0) == ack_view(a),
            None => r is None,
        },
{
    let mut i: usize = 0;
    while i < acks.len()
        invariant
            i <= acks@.len(),
            ack_in(acks@, name@, 0) == ack_in(acks@, name@, i as nat),
        decreases acks@.len() - i,
    {
        if eq_str(acks[i].0.as_str(), name) {
            let a = &acks[i].1;
            return Some(
                AgentRequestAck {
                    request_id: own(a.request_id.as_str()),
                    ack_at: own(a.ack_at.as_str()),
                    acted: a.acted,
                    result: own(a.result.as_str()),
                    notes: crate::identity::clone_opt(&a.notes),
                },
            );
        }
        i = i + 1;
    }
    None
}

/// Scan an agent's requests: each in a file that holds one, with its acknowledgement if
/// there is one, in the order of their identifiers, which is that of time. The requests
/// and the acknowledgements are given with the names of their files.
pub fn scan(files: &Vec<(String, AgentRequest)>, acks: &Vec<(String, AgentRequestAck)>) -> (r: Vec<
    RequestWithAck,
>)
    ensures
        ({
            let found = requests_in(files@, files@.len());
            let sorted = order::stable_order(ids(found), found.len());
            &&& r@.len() == found.len()
            &&& forall|k: int|
                0 <= k < r@.len() ==> is_pair(
                    #[trigger] r@[k],
                    found[sorted[k] as int],
                    acks@,
                )
        }),
{
    let ghost all = requests_in(files@, files@.len());
    let mut picked: Vec<usize> = Vec::new();
    let mut keys: Vec<String> = Vec::new();
    let mut i: usize = 0;
    while i < files.len()
        invariant
            i <= files@.len(),
            picked@.len() == requests_in(files@, i as nat).len(),
            keys@.len() == picked@.len(),
            forall|k: int|
                0 <= k < picked@.len() ==> (#[trigger] picked@[k]) < files@.len()
                    && files@[picked@[k] as int].1 == requests_in(files@, i as nat)[k],
            forall|k: int|
                0 <= k < keys@.len() ==> (#[trigger] keys@[k])@ == requests_in(
                    files@,
                    i as nat,
                )[k].request_id@,
        decreases files@.len() - i,
    {
        if is_request_file(files[i].0.as_str()) {
            picked.push(i);
            keys.push(own(files[i].1.request_id.as_str()));
        }
        i = i + 1;
    }
    assert(text::strs(keys@) =~= ids(all));
    let sorted = order_of(&keys);
    let mut out: Vec<RequestWithAck> = Vec::new();
    let mut k: usize = 0;
    proof {
        order::law_stable_order_sorts(ids(all), all.len());
    }
    while k < sorted.len()
        invariant
            k <= sorted@.len(),
            all == requests_in(files@, files@.len()),
            sorted@ == order::stable_order(ids(all), all.len()),
            sorted@.len() == all.len(),
            picked@.len() == all.len(),
            forall|j: int| 0 <= j < sorted@.len() ==> (#[trigger] sorted@[j]) < all.len(),
            forall|j: int|
                0 <= j < picked@.len() ==> (#[trigger] picked@[j]) < files@.len()
                    && files@[picked@[j] as int].1 == all[j],
            out@.len() == k,
            forall|j: int|
                0 <= j < k ==> is_pair(#[trigger] out@[j], all[sorted@[j] as int], acks@),
        decreases sorted@.len() - k,
    {
        let request = clone_request(&files[picked[sorted[k]]].1);
        let ack = find_ack(acks, ack_file_name(request.request_id.as_str()).as_str());
        let pair = RequestWithAck { request, ack };
        out.push(pair);
        k = k + 1;
    }
    out
}

/// A scan gives the requests in the order of their identifiers, each of them once.
pub proof fn law_scan_is_sorted(files: Seq<(String, AgentRequest)>)
    requires
        files.len() <= usize::MAX,
    ensures
        ({
            let found = requests_in(files, files.len());
            let sorted = order::stable_order(ids(found), found.len());
            order::is_sorted(ids(found), sorted) && order::is_permutation(sorted, found.len())
        }),
{
    let found = requests_in(files, files.len());
    lemma_fewer_requests(files, files.len());
    order::law_stable_order_sorts(ids(found), found.len());
}

proof fn lemma_fewer_requests(files: Seq<(String, AgentRequest)>, n: nat)
    ensures
        requests_in(files, n).len() <= n,
    decreases n,
{
    if n > 0 {
        lemma_fewer_requests(files, (n - 1) as nat);
    }
}

// ---------------------------------------------------------------------------
// Identifiers
// ---------------------------------------------------------------------------

/// Whether a character is a digit of Crockford's base 32.
pub open spec fn is_crockford(c: char) -> bool {
    text::is_digit(c) || ('A' <= c <= 'Z' && c != 'I' && c != 'L' && c != 'O' && c != 'U')
}

/// Whether a text has the form of a ULID.
pub open spec fn is_ulid(s: Seq<char>) -> bool {
    s.len() == 26 && forall|i: int| 0 <= i < s.len() ==> is_crockford(#[trigger] s[i])
}

/// Calls `ulid::Ulid::new` and prints it: 26 digits of Crockford's base 32. Which ones
/// depends on the time and on chance.
#[verifier::external_body]
fn fresh_ulid() -> (r: String)
    ensures
        is_ulid(r@),
{
    ulid::Ulid::new().to_string()
}

/// Generate a fresh identifier for a request. Identifiers sort by time, to about a
/// millisecond.
pub fn new_request_id() -> (r: String)
    ensures
        is_ulid(r@),
{
    fresh_ulid()
}

// ---------------------------------------------------------------------------
// Laws
// ---------------------------------------------------------------------------

/// A word stands for the kind of its name, in either spelling, and no other word for any.
pub proof fn law_words_stand_for_their_kind(s: Seq<char>)
    ensures
        kind_named(s) == Some(RequestKind::Kill) <==> s == "kill"@,
        kind_named(s) == Some(RequestKind::Pause) <==> s == "pause"@,
        kind_named(s) == Some(RequestKind::Resume) <==> s == "resume"@,
        kind_named(s) == Some(RequestKind::Reprioritise) <==> s == "reprioritise"@ || s
            == "reprioritize"@,
{
    reveal_strlit("kill");
    reveal_strlit("pause");
    reveal_strlit("resume");
    reveal_strlit("reprioritise");
    reveal_strlit("reprioritize");
    assert("kill"@.len() == 4 && "pause"@.len() == 5 && "resume"@.len() == 6);
    assert("reprioritise"@.len() == 12 && "reprioritize"@.len() == 12);
}

/// The file of a request holds a request; that of an acknowledgement, of the same request or of
/// any other, does not.
pub proof fn law_request_files_are_told_apart(id: Seq<char>)
    requires
        id.len() > 0,
    ensures
        !holds_request(ack_name(id)),
        !text::has_suffix(text::ascii_lower(id), ".ack"@) ==> holds_request(id + ".json"@),
        holds_request(id) ==> text::has_suffix(text::ascii_lower(id), ".json"@),
{
    reveal_strlit(".ack.json");
    reveal_strlit(".json");
    reveal_strlit("json");
    reveal_strlit(".ack");
    let a = ack_name(id);
    let la = text::ascii_lower(a);
    assert(la.skip(id.len() as int) =~= ".ack.json"@);
    let r = id + ".json"@;
    let lr = text::ascii_lower(r);
    lemma_last_dot(id);
    let dot = text::rfind_char(r, '.');
    assert(dot == id.len());
    assert(r.skip(dot + 1) =~= "json"@);
    assert(text::ascii_lower("json"@) =~= "json"@);
    if text::has_suffix(lr, ".ack.json"@) {
        let t = lr.skip(lr.len() - 9);
        let li = text::ascii_lower(id);
        assert(li.len() >= 4);
        assert(li.skip(li.len() - 4) =~= ".ack"@) by {
            assert forall|k: int| 0 <= k < 4 implies li.skip(li.len() - 4)[k] == ".ack"@[k] by {
                assert(t[k] == ".ack.json"@[k]);
                assert(lr[lr.len() - 9 + k] == li[li.len() - 4 + k]);
            }
        }
    }
    if holds_request(id) {
        let d = text::rfind_char(id, '.');
        lemma_rfind(id);
        let e = id.skip(d + 1);
        assert(text::ascii_lower(e) == "json"@);
        assert(text::ascii_lower(e).len() == e.len());
        let li = text::ascii_lower(id);
        assert(li.skip(li.len() - 5) =~= ".json"@) by {
            assert forall|k: int| 0 <= k < 5 implies li.skip(li.len() - 5)[k] == ".json"@[k] by {
                if k == 0 {
                    assert(li[d] == text::lower_char(id[d]));
                } else {
                    assert(text::ascii_lower(e)[k - 1] == "json"@[k - 1]);
                    assert(li[d + k] == text::lower_char(id[d + k]));
                    assert(e[k - 1] == id[d + k]);
                }
            }
        }
    }
}

proof fn lemma_rfind(s: Seq<char>)
    ensures
        ({
            let d = text::rfind_char(s, '.');
            -1 <= d < s.len() && (d >= 0 ==> s[d] == '.')
        }),
    decreases s.len(),
{
    if s.len() > 0 && s.last() != '.' {
        lemma_rfind(s.drop_last());
    }
}

proof fn lemma_last_dot(id: Seq<char>)
    ensures
        text::rfind_char(id + ".json"@, '.') == id.len(),
{
    reveal_strlit(".json");
    let r = id + ".json"@;
    reveal_with_fuel(text::rfind_char, 6);
    assert(r.last() == 'n');
    assert(r.drop_last().last() == 'o');
    assert(r.drop_last().drop_last().last() == 's');
    assert(r.drop_last().drop_last().drop_last().last() == 'j');
    assert(r.drop_last().drop_last().drop_last().drop_last().last() == '.');
}

/// Every request in a file that holds one is found, and nothing else is.
pub proof fn law_every_request_is_found(files: Seq<(String, AgentRequest)>, r: AgentRequest)
    ensures
        requests_in(files, files.len()).contains(r) <==> exists|i: int|
            0 <= i < files.len() && holds_request((#[trigger] files[i]).0@) && files[i].1 == r,
{
    lemma_requests(files, files.len(), r);
}

proof fn lemma_requests(files: Seq<(String, AgentRequest)>, n: nat, r: AgentRequest)
    requires
        n <= files.len(),
    ensures
        requests_in(files, n).contains(r) <==> exists|i: int|
            0 <= i < n && holds_request((#[trigger] files[i]).0@) && files[i].1 == r,
    decreases n,
{
    if n > 0 {
        lemma_requests(files, (n - 1) as nat, r);
        let head = requests_in(files, (n - 1) as nat);
        let all = requests_in(files, n);
        if head.contains(r) {
            let k = choose|k: int| 0 <= k < head.len() && head[k] == r;
            assert(all[k] == r);
        }
        if holds_request(files[n - 1].0@) && files[n - 1].1 == r {
            assert(all[head.len() as int] == r);
        }
        if all.contains(r) {
            let k = choose|k: int| 0 <= k < all.len() && all[k] == r;
            if k < head.len() {
                assert(head[k] == r);
            }
        }
    }
}

/// A request has the acknowledgement in the file that is named after it, and none where there is
/// no such file.
pub proof fn law_acknowledgements_belong_to_their_request(
    pair: RequestWithAck,
    request: AgentRequest,
    acks: Seq<(String, AgentRequestAck)>,
    i: int,
)
    requires
        is_pair(pair, request, acks),
    ensures
        pair.request.request_id@ == request.request_id@ && pair.request.kind == request.kind
            && pair.request.subject == request.subject,
        pair.ack is Some <==> exists|k: int|
            0 <= k < acks.len() && (#[trigger] acks[k]).0@ == request.request_id@ + ".ack.json"@,
        0 <= i < acks.len() && acks[i].0@ == request.request_id@ + ".ack.json"@ && (forall|k: int|
            0 <= k < i ==> (#[trigger] acks[k]).0@ != request.request_id@ + ".ack.json"@) ==> (
        pair.ack matches Some(a) && a.acted == acks[i].1.acted && a.result@ == acks[i].1.result@),
{
    lemma_ack_in(acks, ack_name(request.request_id@), 0, i);
}

proof fn lemma_ack_in(acks: Seq<(String, AgentRequestAck)>, name: Seq<char>, n: nat, i: int)
    requires
        n <= acks.len(),
    ensures
        ack_in(acks, name, n) is Some <==> exists|k: int|
            n <= k < acks.len() && (#[trigger] acks[k]).0@ == name,
        n <= i < acks.len() && acks[i].0@ == name && (forall|k: int|
            n <= k < i ==> (#[trigger] acks[k]).0@ != name) ==> ack_in(acks, name, n) == Some(
            acks[i].1,
        ),
    decreases acks.len() - n,
{
    if n < acks.len() && acks[n as int].0@ != name {
        lemma_ack_in(acks, name, n + 1, i);
    }
}

/// A kind is read exactly where it is one of the four words; a word that is none is named.
pub proof fn law_kinds_are_read(s: &str, r: Result<RequestKind, String>)
    requires
        call_ensures(RequestKind::parse, (s,), r),
    ensures
        r is Ok <==> kind_named(s@) is Some,
        r matches Ok(kind) ==> kind_named(s@) == Some(kind),
        r matches Err(message) ==> text::contains(message@, s@),
{
    broadcast use {
        text::lemma_contains_self,
        text::lemma_contains_first,
        text::lemma_contains_second,
    };

}

/// A scan gives every request in the order of the identifiers, each with its own acknowledgement.
pub proof fn law_scans_are_in_order(
    files: &Vec<(String, AgentRequest)>,
    acks: &Vec<(String, AgentRequestAck)>,
    r: Vec<RequestWithAck>,
    i: int,
    j: int,
)
    requires
        call_ensures(scan, (files, acks), r),
        requests_in(files@, files@.len()).len() <= usize::MAX,
        0 <= i < j < r@.len(),
    ensures
        text::lex_le(r@[i].request.request_id@, r@[j].request.request_id@),
        r@.len() == requests_in(files@, files@.len()).len(),
        r@[i].ack is Some <==> ack_in(acks@, ack_name(r@[i].request.request_id@), 0) is Some,
{
    let found = requests_in(files@, files@.len());
    let sorted = order::stable_order(ids(found), found.len());
    order::law_stable_order_sorts(ids(found), found.len());
    assert(is_pair(r@[i], found[sorted[i] as int], acks@));
    assert(is_pair(r@[j], found[sorted[j] as int], acks@));
    assert(ids(found)[sorted[i] as int] == found[sorted[i] as int].request_id@);
    assert(ids(found)[sorted[j] as int] == found[sorted[j] as int].request_id@);
    assert(text::lex_le(ids(found)[sorted[i] as int], ids(found)[sorted[j] as int]));
}

/// A request is kept among those of its agent, in a file that is named after it and holds a request.
pub proof fn law_requests_are_kept_with_their_agent(agent_id: &str, request_id: &str, r: String)
    requires
        call_ensures(request_path, (agent_id, request_id), r),
        agent_id@.len() > 0 && agent_id@[0] != '/' && agent_id@.last() != '/',
        request_id@.len() > 0 && request_id@[0] != '/',
    ensures
        r@ == "agents/"@ + agent_id@ + "/requests/"@ + request_id@ + ".json"@,
{
    reveal_strlit("agents");
    reveal_strlit("agents/");
    reveal_strlit("requests");
    reveal_strlit("/requests/");
    let a = paths::joined("agents"@, agent_id@);
    paths::law_paths_lead_on("agents"@, agent_id@);
    assert(a.last() == agent_id@.last());
    paths::law_paths_lead_on(a, "requests"@);
    let b = paths::joined(a, "requests"@);
    assert(b.last() == 's');
    let file = request_id@ + ".json"@;
    assert(file[0] == request_id@[0]);
    paths::law_paths_lead_on(b, file);
    assert(r@ =~= "agents/"@ + agent_id@ + "/requests/"@ + request_id@ + ".json"@);
}

} // verus!
