//! Logging that a driver intervened.

use crate::json;
use crate::json::flag_at;
use crate::json_object;
use crate::text;
use crate::text::{contains_name, join_strs, own, own_opt, own_words};
use vstd::prelude::*;

verus! {

/// What a hook configuration says of intervention tracking: it is on unless it is
/// switched off.
pub open spec fn tracking(hook_config: Option<Seq<char>>) -> bool {
    match hook_config {
        Some(content) => match json_object::flag_of(json::at(content, "intervention_tracking"@)) {
            Some(enabled) => enabled,
            None => true,
        },
        None => true,
    }
}

/// Check if intervention tracking is enabled in the hook configuration, where there is
/// one.
pub fn is_intervention_tracking_enabled(hook_config: Option<&str>) -> (r: bool)
    ensures
        r == tracking(text::opt_view(hook_config)),
{
    match hook_config {
        Some(content) => match flag_at(content, "intervention_tracking") {
            Some(enabled) => enabled,
            None => true,
        },
        None => true,
    }
}

/// What may trigger an intervention.
pub open spec fn trigger_types() -> Seq<Seq<char>> {
    seq![
        "tool_rejected"@,
        "tool_blocked"@,
        "redirect"@,
        "context_provided"@,
        "manual_action"@,
        "question_answered"@,
    ]
}

fn all_trigger_types() -> (r: Vec<String>)
    ensures
        text::strs(r@) == trigger_types(),
{
    let words: Vec<&'static str> = vec![
        "tool_rejected",
        "tool_blocked",
        "redirect",
        "context_provided",
        "manual_action",
        "question_answered",
    ];
    assert(text::words(words@) =~= trigger_types());
    own_words(&words)
}

/// Whether something may trigger an intervention.
pub fn validate_trigger_type(trigger_type: &str) -> (r: bool)
    ensures
        r == text::has_name(trigger_types(), trigger_type@),
{
    contains_name(&all_trigger_types(), trigger_type)
}

/// What is printed where interventions are not tracked.
pub const DISABLED: &'static str = "Intervention tracking is disabled in hook-config.json. Skipping.\n";

/// What is said of a trigger that there is not.
pub open spec fn unknown_trigger(trigger_type: Seq<char>) -> Seq<char> {
    "Unknown trigger type '"@ + trigger_type + "'. Valid types: "@ + text::join(
        trigger_types(),
        ", "@,
    )
}

/// An intervention to be logged.
pub struct Intervention {
    pub issue_id: i64,
    pub description: String,
    pub trigger_type: String,
    pub context: Option<String>,
}

/// What is to be done about an intervention.
pub enum Decision {
    /// It is not logged, and this is printed instead.
    Skip(String),
    /// It is logged on its issue, which must be there.
    Log(Intervention),
}

/// What is decided of an intervention: where tracking is off, it is skipped; only then
/// the trigger is looked at, and an intervention with one that there is is logged as it
/// was given.
pub open spec fn decides(
    enabled: bool,
    issue_id: i64,
    description: Seq<char>,
    trigger_type: Seq<char>,
    context: Option<Seq<char>>,
    r: Result<Decision, String>,
) -> bool {
    if !enabled {
        r matches Ok(Decision::Skip(say)) && say@ == DISABLED@
    } else if !text::has_name(trigger_types(), trigger_type) {
        r matches Err(message) && message@ == unknown_trigger(trigger_type)
    } else {
        r matches Ok(Decision::Log(i)) && i.issue_id == issue_id && i.description@ == description
            && i.trigger_type@ == trigger_type && text::opt_str(i.context) == context
    }
}

/// `crosslink intervene`, up to the point where the issue is looked up.
pub fn run(
    issue_id: i64,
    description: &str,
    trigger_type: &str,
    context: Option<&str>,
    hook_config: Option<&str>,
) -> (r: Result<Decision, String>)
    ensures
        decides(
            tracking(text::opt_view(hook_config)),
            issue_id,
            description@,
            trigger_type@,
            text::opt_view(context),
            r,
        ),
{
    decide(
        is_intervention_tracking_enabled(hook_config),
        issue_id,
        description,
        trigger_type,
        context,
    )
}

/// Decides what to do about an intervention, once it is known whether they are tracked.
pub fn decide(
    tracking_enabled: bool,
    issue_id: i64,
    description: &str,
    trigger_type: &str,
    context: Option<&str>,
) -> (r: Result<Decision, String>)
    ensures
        decides(
            tracking_enabled,
            issue_id,
            description@,
            trigger_type@,
            text::opt_view(context),
            r,
        ),
{
    if !tracking_enabled {
        return Ok(Decision::Skip(own(DISABLED)));
    }
    if !validate_trigger_type(trigger_type) {
        let mut message = own("Unknown trigger type '");
        message.append(trigger_type);
        message.append("'. Valid types: ");
        message.append(join_strs(&all_trigger_types(), ", ").as_str());
        return Err(message);
    }
    Ok(
        Decision::Log(
            Intervention {
                issue_id,
                description: own(description),
                trigger_type: own(trigger_type),
                context: own_opt(context),
            },
        ),
    )
}

/// What is printed of an intervention that was logged.
pub open spec fn logged_text(shown: Seq<char>, trigger_type: Seq<char>, driver: Option<Seq<char>>) -> Seq<
    char,
> {
    let line = "Logged intervention on issue "@ + shown + " ["@ + trigger_type + "]"@;
    match driver {
        Some(fp) => line + " (driver: "@ + fp + ")\n"@,
        None => line + "\n"@,
    }
}

/// Tells of an intervention that was logged, with the driver where they are known.
pub fn report_logged(shown: &str, trigger_type: &str, driver: Option<&str>) -> (out: String)
    ensures
        out@ == logged_text(shown@, trigger_type@, text::opt_view(driver)),
{
    let mut out = own("Logged intervention on issue ");
    out.append(shown);
    out.append(" [");
    out.append(trigger_type);
    out.append("]");
    match driver {
        Some(fp) => {
            out.append(" (driver: ");
            out.append(fp);
            out.append(")\n");
        },
        None => {
            out.append("\n");
        },
    }
    out
}

/// Interventions are tracked unless the configuration switches that off.
pub proof fn law_tracking_is_on_by_default(content: Seq<char>)
    ensures
        tracking(None),
        tracking(Some(content)) <==> json_object::flag_of(
            json::at(content, "intervention_tracking"@),
        ) != Some(false),
{
}

/// An intervention is logged exactly where it is tracked and its trigger is known, and then as it
/// was given. Where it is not tracked it is skipped whatever its trigger; an unknown trigger is
/// named.
pub proof fn law_interventions_are_logged_as_given(
    enabled: bool,
    issue_id: i64,
    description: &str,
    trigger_type: &str,
    context: Option<&str>,
    known: bool,
    r: Result<Decision, String>,
)
    requires
        call_ensures(decide, (enabled, issue_id, description, trigger_type, context), r),
        call_ensures(validate_trigger_type, (trigger_type,), known),
    ensures
        r matches Ok(Decision::Log(_)) <==> enabled && known,
        r matches Ok(Decision::Skip(_)) <==> !enabled,
        r matches Err(_) <==> enabled && !known,
        r matches Ok(Decision::Log(i)) ==> i.issue_id == issue_id && i.description@ == description@
            && i.trigger_type@ == trigger_type@ && text::opt_str(i.context) == text::opt_view(
            context,
        ),
        r matches Err(message) ==> text::contains(message@, trigger_type@),
{
    broadcast use {
        text::lemma_contains_self,
        text::lemma_contains_first,
        text::lemma_contains_second,
    };

}

/// The triggers are just these.
pub proof fn law_triggers_are_known(trigger_type: &str, r: bool)
    requires
        call_ensures(validate_trigger_type, (trigger_type,), r),
    ensures
        r <==> (trigger_type@ == "tool_rejected"@ || trigger_type@ == "tool_blocked"@
            || trigger_type@ == "redirect"@ || trigger_type@ == "context_provided"@
            || trigger_type@ == "manual_action"@ || trigger_type@ == "question_answered"@),
{
    let t = trigger_types();
    assert(t[0] == "tool_rejected"@ && t[1] == "tool_blocked"@ && t[2] == "redirect"@ && t[3]
        == "context_provided"@ && t[4] == "manual_action"@ && t[5] == "question_answered"@);
}

/// Where a trigger is unknown, every one that there is is named.
pub proof fn law_triggers_are_named(trigger_type: Seq<char>, k: int)
    requires
        0 <= k < trigger_types().len(),
    ensures
        text::contains(unknown_trigger(trigger_type), trigger_types()[k]),
{
    text::law_joined_text_holds_its_parts(trigger_types(), ", "@, k);
    text::lemma_contains_second(
        "Unknown trigger type '"@ + trigger_type + "'. Valid types: "@,
        text::join(trigger_types(), ", "@),
        trigger_types()[k],
    );
}

/// A logged intervention is told: its issue, its trigger, and the driver where they are known.
pub proof fn law_logged_interventions_are_told(
    shown: Seq<char>,
    trigger_type: Seq<char>,
    driver: Option<Seq<char>>,
)
    ensures
        text::contains(
            logged_text(shown, trigger_type, driver),
            "Logged intervention on issue "@ + shown,
        ),
        text::contains(logged_text(shown, trigger_type, driver), " ["@ + trigger_type + "]"@),
        driver matches Some(fp) ==> text::has_suffix(
            logged_text(shown, trigger_type, driver),
            fp + ")\n"@,
        ),
        driver is None ==> text::has_suffix(logged_text(shown, trigger_type, driver), "]"@ + "\n"@),
{
    broadcast use {
        text::lemma_contains_self,
        text::lemma_contains_first,
        text::lemma_contains_pair,
        text::lemma_contains_triple,
        text::lemma_suffix_of_pair,
    };

}

} // verus!
