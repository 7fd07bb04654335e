//! Policy rules: checking a new one, listing them with their defaults,
//! reading and editing `policy.toml` (a rule added or removed, everything
//! else in the file kept), the policy files written by `init` and `add`,
//! and the yes/no confirmations asked before destructive changes.
use vstd::prelude::*;
use crate::text;
use crate::text::{chars_of, str_to_lowercase, string_from_chars, trim_chars};
use toml::de::ValueDeserializer;
use toml::Value;

verus! {

/// Whether an answer to a `(y/N)` question confirms: `y` or `yes` in any
/// case, ignoring surrounding whitespace.
pub open spec fn confirms(input: Seq<char>) -> bool {
    confirms_lowered(text::lowercase(text::trim(input)))
}

/// Whether an already trimmed and lower-cased answer confirms: `y` or `yes`.
pub open spec fn confirms_lowered(a: Seq<char>) -> bool {
    a == "y"@ || a == "yes"@
}

/// Whether an answer to a `(y/N)` question confirms the change.
pub fn is_confirmation(input: &str) -> (r: bool)
    ensures
        r == confirms(input@),
{
    let t = string_from_chars(&trim_chars(&chars_of(input)));
    let a = str_to_lowercase(t.as_str());
    is_lowered_confirmation(&a)
}

/// Whether an already trimmed and lower-cased answer confirms the change.
pub fn is_lowered_confirmation(a: &String) -> (r: bool)
    ensures
        r == confirms_lowered(a@),
{
    *a == String::from_str("y") || *a == String::from_str("yes")
}

/// The answer to a prompt with a default: the trimmed input, or the default
/// when nothing was typed.
pub fn answer_or_default(input: &str, default: &str) -> (r: String)
    ensures
        r@ == if text::trim(input@).len() == 0 {
            default@
        } else {
            text::trim(input@)
        },
{
    let t = trim_chars(&chars_of(input));
    if t.len() == 0 {
        String::from_str(default)
    } else {
        string_from_chars(&t)
    }
}

/// Why a new policy rule was refused.
#[derive(Debug, Clone, Copy, PartialEq, Eq)]
pub enum PolicyRuleError {
    /// No tool pattern was given.
    MissingToolPattern,
    /// The priority is not `admin`, `user` or `default`.
    InvalidPriority,
    /// The action is not `allow`, `deny` or `ask_user`.
    InvalidAction,
}

/// Whether a lower-cased priority is valid.
pub open spec fn valid_priority(p: Seq<char>) -> bool {
    p == "admin"@ || p == "user"@ || p == "default"@
}

/// Whether a lower-cased action is valid.
pub open spec fn valid_action(a: Seq<char>) -> bool {
    a == "allow"@ || a == "deny"@ || a == "ask_user"@
}

/// Checks a new policy rule, in this order: a tool pattern is given, the
/// priority is `admin`, `user` or `default`, the action is `allow`, `deny`
/// or `ask_user` (both in any case). Gives the lower-cased priority and
/// action that the rule stores.
pub fn validate_policy_rule(tool_pattern: &str, priority: &str, action: &str) -> (r: Result<
    (String, String),
    PolicyRuleError,
>)
    ensures
        tool_pattern@.len() == 0 ==> r == Err::<(String, String), PolicyRuleError>(
            PolicyRuleError::MissingToolPattern,
        ),
        tool_pattern@.len() > 0 && !valid_priority(text::lowercase(priority@)) ==> r == Err::<
            (String, String),
            PolicyRuleError,
        >(PolicyRuleError::InvalidPriority),
        tool_pattern@.len() > 0 && valid_priority(text::lowercase(priority@)) && !valid_action(
            text::lowercase(action@),
        ) ==> r == Err::<(String, String), PolicyRuleError>(PolicyRuleError::InvalidAction),
        tool_pattern@.len() > 0 && valid_priority(text::lowercase(priority@)) && valid_action(
            text::lowercase(action@),
        ) ==> (r matches Ok((p, a)) && p@ == text::lowercase(priority@) && a@
            == text::lowercase(action@)),
{
    let p = str_to_lowercase(priority);
    let a = str_to_lowercase(action);
    validate_lowered_rule(tool_pattern, p, a)
}

/// Checks a new policy rule whose priority and action are already
/// lower-cased, in this order: a tool pattern is given, the priority is
/// `admin`, `user` or `default`, the action is `allow`, `deny` or
/// `ask_user`. Gives the priority and action back when the rule is valid.
pub fn validate_lowered_rule(tool_pattern: &str, p: String, a: String) -> (r: Result<
    (String, String),
    PolicyRuleError,
>)
    ensures
        tool_pattern@.len() == 0 ==> r == Err::<(String, String), PolicyRuleError>(
            PolicyRuleError::MissingToolPattern,
        ),
        tool_pattern@.len() > 0 && !valid_priority(p@) ==> r == Err::<
            (String, String),
            PolicyRuleError,
        >(PolicyRuleError::InvalidPriority),
        tool_pattern@.len() > 0 && valid_priority(p@) && !valid_action(a@) ==> r == Err::<
            (String, String),
            PolicyRuleError,
        >(PolicyRuleError::InvalidAction),
        tool_pattern@.len() > 0 && valid_priority(p@) && valid_action(a@) ==> r == Ok::<
            (String, String),
            PolicyRuleError,
        >((p, a)),
{
    if chars_of(tool_pattern).len() == 0 {
        return Err(PolicyRuleError::MissingToolPattern);
    }
    if !(p == String::from_str("admin") || p == String::from_str("user") || p == String::from_str(
        "default",
    )) {
        return Err(PolicyRuleError::InvalidPriority);
    }
    if !(a == String::from_str("allow") || a == String::from_str("deny") || a
        == String::from_str("ask_user")) {
        return Err(PolicyRuleError::InvalidAction);
    }
    Ok((p, a))
}

/// The fields of a policy rule as written in `policy.toml`, each present
/// (as a string) or not.
#[derive(Debug, Clone, PartialEq, Eq)]
pub struct PolicyRuleFields {
    pub name: Option<String>,
    pub priority: Option<String>,
    pub action: Option<String>,
    pub tool_pattern: Option<String>,
    pub arg_pattern: Option<String>,
    pub reason: Option<String>,
}

/// A policy rule as listed, with defaults for the fields not written.
#[derive(Debug, Clone, PartialEq, Eq)]
pub struct PolicyRuleListing {
    /// The name, or `(unnamed)`.
    pub name: String,
    /// The priority, or `user`.
    pub priority: String,
    /// The action, or `allow`.
    pub action: String,
    /// The tool pattern, or nothing.
    pub tool_pattern: String,
    /// The argument pattern, or `(none)`.
    pub arg_pattern: String,
}

/// A field's text, or the default when it is not written.
pub open spec fn or_default(field: Option<String>, default: Seq<char>) -> Seq<char> {
    match field {
        Some(v) => v@,
        None => default,
    }
}

/// A field's text, or the default.
fn field_or(field: &Option<String>, default: &str) -> (r: String)
    ensures
        r@ == or_default(*field, default@),
{
    match field {
        Some(v) => v.clone(),
        None => String::from_str(default),
    }
}

/// How `policy list` shows a rule: missing fields take their defaults.
pub fn rule_listing(rule: &PolicyRuleFields) -> (r: PolicyRuleListing)
    ensures
        r.name@ == or_default(rule.name, "(unnamed)"@),
        r.priority@ == or_default(rule.priority, "user"@),
        r.action@ == or_default(rule.action, "allow"@),
        r.tool_pattern@ == or_default(rule.tool_pattern, ""@),
        r.arg_pattern@ == or_default(rule.arg_pattern, "(none)"@),
{
    PolicyRuleListing {
        name: field_or(&rule.name, "(unnamed)"),
        priority: field_or(&rule.priority, "user"),
        action: field_or(&rule.action, "allow"),
        tool_pattern: field_or(&rule.tool_pattern, ""),
        arg_pattern: field_or(&rule.arg_pattern, "(none)"),
    }
}

/// The policy file `policy init` writes: ask by default, with example rules
/// for reads, writes, a dangerous shell command and MCP tools.
pub const DEFAULT_POLICY: &'static str = "# Radium Policy Configuration\n# This file controls tool execution policies for Radium agents.\n\n# Approval mode determines default behavior when no rules match\n# Options: yolo (auto-approve all), autoEdit (auto-approve edits), ask (ask for all)\napproval_mode = \"ask\"\n\n# Policy rules are evaluated in priority order (admin > user > default)\n# First matching rule wins\n\n[[rules]]\nname = \"Allow safe file operations\"\npriority = \"user\"\naction = \"allow\"\ntool_pattern = \"read_*\"\nreason = \"Safe read operations are always allowed\"\n\n[[rules]]\nname = \"Allow file writes with approval\"\npriority = \"user\"\naction = \"ask_user\"\ntool_pattern = \"write_*\"\nreason = \"File writes require user approval\"\n\n[[rules]]\nname = \"Deny dangerous shell commands\"\npriority = \"admin\"\naction = \"deny\"\ntool_pattern = \"run_terminal_cmd\"\narg_pattern = \"rm -rf *\"\nreason = \"Prevent accidental deletion\"\n\n[[rules]]\nname = \"Require approval for MCP tools\"\npriority = \"user\"\naction = \"ask_user\"\ntool_pattern = \"mcp_*\"\nreason = \"MCP tools may have side effects\"\n";

/// The policy file first written by `policy add` when there is none.
pub const EMPTY_POLICY: &'static str = "approval_mode = \"ask\"\n\n";

/// A policy rule as a mathematical value.
pub ghost struct PolicyRuleView {
    pub name: Option<Seq<char>>,
    pub priority: Option<Seq<char>>,
    pub action: Option<Seq<char>>,
    pub tool_pattern: Option<Seq<char>>,
    pub arg_pattern: Option<Seq<char>>,
    pub reason: Option<Seq<char>>,
}

/// The mathematical value of a rule.
pub open spec fn rule_view(r: PolicyRuleFields) -> PolicyRuleView {
    PolicyRuleView {
        name: text::opt_view(r.name),
        priority: text::opt_view(r.priority),
        action: text::opt_view(r.action),
        tool_pattern: text::opt_view(r.tool_pattern),
        arg_pattern: text::opt_view(r.arg_pattern),
        reason: text::opt_view(r.reason),
    }
}

/// A value of a policy file: a string, or any other value as the TOML text
/// the `toml` crate writes for it.
#[derive(Debug, Clone, PartialEq, Eq)]
pub enum TomlScalar {
    Str(String),
    Other(String),
}

/// An entry of an array of a policy file: a table of values, or any other
/// value as TOML text.
#[derive(Debug, Clone, PartialEq, Eq)]
pub enum TomlEntry {
    Table(Vec<(String, TomlScalar)>),
    Other(String),
}

/// A top-level value of a policy file: an array, or another value.
#[derive(Debug, Clone, PartialEq, Eq)]
pub enum TomlItem {
    Scalar(TomlScalar),
    Array(Vec<TomlEntry>),
}

/// A policy file as the commands read and write it: its top-level keys with
/// their values, everything the commands do not read kept as TOML text.
#[derive(Debug, Clone, PartialEq, Eq)]
pub struct PolicyDocument {
    pub items: Vec<(String, TomlItem)>,
}

/// A value of a policy file as a mathematical value.
pub ghost enum ScalarView {
    Str(Seq<char>),
    Other(Seq<char>),
}

/// An array entry as a mathematical value.
pub ghost enum EntryView {
    Table(Seq<(Seq<char>, ScalarView)>),
    Other(Seq<char>),
}

/// A top-level value as a mathematical value.
pub ghost enum ItemView {
    Scalar(ScalarView),
    Array(Seq<EntryView>),
}

/// The mathematical value of a value.
pub open spec fn scalar_view(s: TomlScalar) -> ScalarView {
    match s {
        TomlScalar::Str(t) => ScalarView::Str(t@),
        TomlScalar::Other(t) => ScalarView::Other(t@),
    }
}

/// The mathematical value of a table's keys and values.
pub open spec fn pairs_view(kv: Seq<(String, TomlScalar)>) -> Seq<(Seq<char>, ScalarView)> {
    kv.map_values(|p: (String, TomlScalar)| (p.0@, scalar_view(p.1)))
}

/// The mathematical value of an array entry.
pub open spec fn entry_view(e: TomlEntry) -> EntryView {
    match e {
        TomlEntry::Table(kv) => EntryView::Table(pairs_view(kv@)),
        TomlEntry::Other(t) => EntryView::Other(t@),
    }
}

/// The mathematical value of array entries.
pub open spec fn entries_view(es: Seq<TomlEntry>) -> Seq<EntryView> {
    es.map_values(|e: TomlEntry| entry_view(e))
}

/// The mathematical value of a top-level value.
pub open spec fn item_view(i: TomlItem) -> ItemView {
    match i {
        TomlItem::Scalar(s) => ItemView::Scalar(scalar_view(s)),
        TomlItem::Array(a) => ItemView::Array(entries_view(a@)),
    }
}

/// The mathematical value of a policy file.
pub open spec fn doc_view(d: PolicyDocument) -> Seq<(Seq<char>, ItemView)> {
    d.items@.map_values(|p: (String, TomlItem)| (p.0@, item_view(p.1)))
}

/// The top-level keys of a TOML document with their values, as the `toml`
/// crate reads it: strings as they are, every other value as the TOML text
/// the crate writes for it; `None` when the text is not valid TOML.
pub uninterp spec fn toml_top(content: Seq<char>) -> Option<Seq<(Seq<char>, ScalarView)>>;

/// The entries of the array that the TOML value text `value` holds, as the
/// `toml` crate reads it: tables with their values, every other entry as
/// TOML text; `None` when the text is not an array.
pub uninterp spec fn toml_entries(value: Seq<char>) -> Option<Seq<EntryView>>;

/// The TOML text that `toml::to_string_pretty` writes for a table of
/// top-level values; `None` when a value's text does not read back or
/// writing fails.
pub uninterp spec fn toml_top_text(top: Seq<(Seq<char>, ScalarView)>) -> Option<Seq<char>>;

/// The TOML value text the `toml` crate writes for an array of entries;
/// `None` when an entry's text does not read back.
pub uninterp spec fn toml_entries_text(es: Seq<EntryView>) -> Option<Seq<char>>;

/// Reads a TOML document with `toml::from_str` into a table, keeping each
/// key with its value: a string as it is, any other value as the text its
/// `Display` writes. Trusted: the result is `Ok` exactly when the text is
/// TOML, and then the named reading (`toml_top`); the error carries the
/// crate's message, which is not stated.
#[verifier::external_body]
fn read_toml_top(content: &str) -> (r: Result<Vec<(String, TomlScalar)>, String>)
    ensures
        r is Ok <==> toml_top(content@) is Some,
        r matches Ok(v) ==> toml_top(content@) == Some(pairs_view(v@)),
{
    let t: toml::Table = toml::from_str(content).map_err(|e| e.to_string())?;
    Ok(t.iter().map(|(k, v)| (k.clone(), match v {
        Value::String(s) => TomlScalar::Str(s.clone()),
        v => TomlScalar::Other(v.to_string()),
    })).collect())
}

/// Reads a TOML value text with `toml::de::ValueDeserializer`; when it is
/// an array, keeps each entry: a table with its keys and values (strings as
/// they are, other values as their `Display` text), any other entry as its
/// `Display` text. Trusted: the result is the named reading
/// (`toml_entries`).
#[verifier::external_body]
fn read_toml_entries(value: &str) -> (r: Option<Vec<TomlEntry>>)
    ensures
        toml_entries(value@) == match r {
            Some(v) => Some(entries_view(v@)),
            None => None::<Seq<EntryView>>,
        },
{
    let sc = |v: &Value| match v { Value::String(s) => TomlScalar::Str(s.clone()), v => TomlScalar::Other(v.to_string()) };
    match <Value as serde::Deserialize>::deserialize(ValueDeserializer::new(value)).ok()? {
        Value::Array(a) => Some(a.iter().map(|e| match e {
            Value::Table(t) => TomlEntry::Table(t.iter().map(|(k, x)| (k.clone(), sc(x))).collect()),
            e => TomlEntry::Other(e.to_string()),
        }).collect()),
        _ => None,
    }
}

/// Writes a table of top-level values with `toml::to_string_pretty`: strings
/// as they are, every other value read back from its text with
/// `toml::de::ValueDeserializer`. Trusted: the text is the named writing
/// (`toml_top_text`).
#[verifier::external_body]
fn write_toml_top(top: &Vec<(String, TomlScalar)>) -> (r: Option<String>)
    ensures
        toml_top_text(pairs_view(top@)) == match r {
            Some(t) => Some(t@),
            None => None::<Seq<char>>,
        },
{
    let t = top.iter().map(|(k, x)| Some((k.clone(), match x {
        TomlScalar::Str(s) => Value::String(s.clone()),
        TomlScalar::Other(t) => <Value as serde::Deserialize>::deserialize(ValueDeserializer::new(t)).ok()?,
    }))).collect::<Option<toml::Table>>()?;
    toml::to_string_pretty(&t).ok()
}

/// Writes an array of entries as the TOML value text its `Display` writes:
/// tables rebuilt from their keys and values, every value or entry given as
/// text read back with `toml::de::ValueDeserializer`. Trusted: the text is
/// the named writing (`toml_entries_text`).
#[verifier::external_body]
fn write_toml_entries(es: &Vec<TomlEntry>) -> (r: Option<String>)
    ensures
        toml_entries_text(entries_view(es@)) == match r {
            Some(t) => Some(t@),
            None => None::<Seq<char>>,
        },
{
    let v = |t: &String| <Value as serde::Deserialize>::deserialize(ValueDeserializer::new(t)).ok();
    let sc = |x: &TomlScalar| match x { TomlScalar::Str(s) => Some(s.clone().into()), TomlScalar::Other(t) => v(t) };
    let a = es.iter().map(|e| match e {
        TomlEntry::Table(kv) => kv.iter().map(|(k, x)| Some((k.clone(), sc(x)?))).collect::<Option<_>>().map(Value::Table),
        TomlEntry::Other(t) => v(t),
    }).collect::<Option<Vec<_>>>()?;
    Some(Value::Array(a).to_string())
}

/// A top-level value as the commands read it: a value whose text is an
/// array is taken entry by entry.
pub open spec fn item_of(s: ScalarView) -> ItemView {
    match s {
        ScalarView::Str(t) => ItemView::Scalar(ScalarView::Str(t)),
        ScalarView::Other(t) => match toml_entries(t) {
            Some(es) => ItemView::Array(es),
            None => ItemView::Scalar(ScalarView::Other(t)),
        },
    }
}

/// A policy file as the commands read it from its top-level values.
pub open spec fn doc_of(top: Seq<(Seq<char>, ScalarView)>) -> Seq<(Seq<char>, ItemView)> {
    top.map_values(|p: (Seq<char>, ScalarView)| (p.0, item_of(p.1)))
}

/// The policy file that the TOML text `content` holds; `None` when it is not
/// valid TOML.
pub open spec fn policy_of(content: Seq<char>) -> Option<Seq<(Seq<char>, ItemView)>> {
    match toml_top(content) {
        Some(top) => Some(doc_of(top)),
        None => None,
    }
}

/// Reads a policy file: its top-level values, with each array taken entry
/// by entry (see `toml_top` and `toml_entries`); the error is the `toml`
/// crate's message when the text is not TOML.
pub fn parse_policy_file(content: &str) -> (r: Result<PolicyDocument, String>)
    ensures
        r is Ok <==> policy_of(content@) is Some,
        r matches Ok(d) ==> policy_of(content@) == Some(doc_view(d)),
{
    let mut top = match read_toml_top(content) {
        Ok(t) => t,
        Err(e) => {
            return Err(e);
        },
    };
    let ghost tv = pairs_view(top@);
    let ghost n = top.len();
    let mut items: Vec<(String, TomlItem)> = Vec::new();
    let mut k: usize = 0;
    assert(pairs_view(top@) =~= tv.skip(0));
    while top.len() > 0
        invariant
            k + top.len() == n,
            n == tv.len(),
            n <= usize::MAX,
            pairs_view(top@) == tv.skip(k as int),
            items@.map_values(|p: (String, TomlItem)| (p.0@, item_view(p.1))) == doc_of(
                tv.take(k as int),
            ),
        decreases top.len(),
    {
        let ghost before = top@;
        assert(pairs_view(before)[0] == tv.skip(k as int)[0]);
        let (key, value) = top.remove(0);
        assert(before[0] == (key, value));
        assert forall|j: int| 0 <= j < top@.len() implies pairs_view(top@)[j] == tv.skip(k + 1)[j] by {
            assert(top@[j] == before[j + 1]);
            assert(pairs_view(before)[j + 1] == tv.skip(k as int)[j + 1]);
        }
        assert(pairs_view(top@) =~= tv.skip(k + 1));
        let item = match value {
            TomlScalar::Str(t) => TomlItem::Scalar(TomlScalar::Str(t)),
            TomlScalar::Other(t) => match read_toml_entries(t.as_str()) {
                Some(es) => TomlItem::Array(es),
                None => TomlItem::Scalar(TomlScalar::Other(t)),
            },
        };
        assert(item_view(item) == item_of(tv[k as int].1));
        assert(tv[k as int] == (key@, scalar_view(value)));
        let ghost items_before = items@;
        let ghost kk = key@;
        assert(doc_of(tv.take(k as int)).len() == k);
        assert(items_before.map_values(|p: (String, TomlItem)| (p.0@, item_view(p.1))).len()
            == items_before.len());
        assert(items_before.len() == k);
        items.push((key, item));
        assert(items@ == items_before.push((key, item)));
        assert(tv.take(k + 1).drop_last() =~= tv.take(k as int));
        let ghost m = items@.map_values(|p: (String, TomlItem)| (p.0@, item_view(p.1)));
        let ghost want = doc_of(tv.take(k + 1));
        assert forall|j: int| 0 <= j < k + 1 implies #[trigger] m[j] == want[j] by {
            if j < k {
                assert(items@[j] == items_before[j]);
                assert(items_before.map_values(|p: (String, TomlItem)| (p.0@, item_view(p.1)))[j]
                    == doc_of(tv.take(k as int))[j]);
                assert(tv.take(k + 1)[j] == tv.take(k as int)[j]);
            } else {
                assert(items@[j] == (key, item));
            }
        }
        assert(items@.map_values(|p: (String, TomlItem)| (p.0@, item_view(p.1))) =~= doc_of(
            tv.take(k + 1),
        ));
        k += 1;
    }
    assert(tv.take(k as int) =~= tv);
    let d = PolicyDocument { items };
    assert(doc_view(d) == doc_of(tv));
    Ok(d)
}

/// The top-level values written for a policy file: each array as the text
/// written for its entries; `None` when one of them cannot be written.
pub open spec fn top_of(doc: Seq<(Seq<char>, ItemView)>) -> Option<Seq<(Seq<char>, ScalarView)>>
    decreases doc.len(),
{
    if doc.len() == 0 {
        Some(Seq::empty())
    } else {
        match (top_of(doc.drop_last()), doc.last().1) {
            (None, _) => None,
            (Some(init), ItemView::Scalar(s)) => Some(init.push((doc.last().0, s))),
            (Some(init), ItemView::Array(es)) => match toml_entries_text(es) {
                Some(t) => Some(init.push((doc.last().0, ScalarView::Other(t)))),
                None => None,
            },
        }
    }
}

/// The TOML text written for a policy file; `None` when writing fails.
pub open spec fn policy_text(doc: Seq<(Seq<char>, ItemView)>) -> Option<Seq<char>> {
    match top_of(doc) {
        Some(top) => toml_top_text(top),
        None => None,
    }
}

/// A copy of a value.
fn copy_scalar(s: &TomlScalar) -> (r: TomlScalar)
    ensures
        r == *s,
{
    match s {
        TomlScalar::Str(t) => TomlScalar::Str(t.clone()),
        TomlScalar::Other(t) => TomlScalar::Other(t.clone()),
    }
}

/// Writes a policy file with `toml::to_string_pretty`: each array is first
/// written as the text of its entries, then the top-level table (see
/// `toml_top_text` and `toml_entries_text`); `None` when writing fails.
pub fn render_policy_file(d: &PolicyDocument) -> (r: Option<String>)
    ensures
        policy_text(doc_view(*d)) == match r {
            Some(t) => Some(t@),
            None => None::<Seq<char>>,
        },
{
    let ghost dv = doc_view(*d);
    let mut top: Vec<(String, TomlScalar)> = Vec::new();
    let mut k: usize = 0;
    while k < d.items.len()
        invariant
            k <= d.items.len(),
            dv == doc_view(*d),
            top_of(dv.take(k as int)) == Some(pairs_view(top@)),
        decreases d.items.len() - k,
    {
        assert(dv.take(k + 1).drop_last() =~= dv.take(k as int));
        assert(dv.take(k + 1).last() == (d.items@[k as int].0@, item_view(d.items@[k as int].1)));
        let key = d.items[k].0.clone();
        let value = match &d.items[k].1 {
            TomlItem::Scalar(s) => copy_scalar(s),
            TomlItem::Array(es) => match write_toml_entries(es) {
                Some(t) => TomlScalar::Other(t),
                None => {
                    assert(top_of(dv.take(k + 1)) is None);
                    proof {
                        lemma_top_of_none(dv, k as int + 1);
                    }
                    assert(dv.take(dv.len() as int) =~= dv);
                    return None;
                },
            },
        };
        top.push((key, value));
        assert(pairs_view(top@) =~= pairs_view(top@.drop_last()).push((key@, scalar_view(value))));
        k += 1;
    }
    assert(dv.take(d.items.len() as int) =~= dv);
    write_toml_top(&top)
}

/// Once a prefix cannot be written, no longer prefix can.
proof fn lemma_top_of_none(doc: Seq<(Seq<char>, ItemView)>, k: int)
    requires
        0 <= k <= doc.len(),
        top_of(doc.take(k)) is None,
    ensures
        top_of(doc.take(doc.len() as int)) is None,
    decreases doc.len() - k,
{
    if k < doc.len() {
        assert(doc.take(k + 1).drop_last() =~= doc.take(k));
        lemma_top_of_none(doc, k + 1);
    }
}

/// The position of the first entry with key `key`, if any.
pub open spec fn key_index<V>(kv: Seq<(Seq<char>, V)>, key: Seq<char>) -> Option<int>
    decreases kv.len(),
{
    if kv.len() == 0 {
        None
    } else if kv[0].0 == key {
        Some(0)
    } else {
        match key_index(kv.drop_first(), key) {
            Some(i) => Some(i + 1),
            None => None,
        }
    }
}

/// The value of the first entry with key `key`, if any.
pub open spec fn find_key<V>(kv: Seq<(Seq<char>, V)>, key: Seq<char>) -> Option<V> {
    match key_index(kv, key) {
        Some(i) => Some(kv[i].1),
        None => None,
    }
}

/// `kv` with the value of the first entry with key `key` replaced by
/// `value`, or with that entry added at the end when there is none.
pub open spec fn set_key<V>(kv: Seq<(Seq<char>, V)>, key: Seq<char>, value: V) -> Seq<(Seq<char>, V)> {
    match key_index(kv, key) {
        Some(i) => kv.update(i, (key, value)),
        None => kv.push((key, value)),
    }
}

/// `key_index` finds the first entry with the key, and nothing when none
/// has it.
pub proof fn lemma_key_index<V>(kv: Seq<(Seq<char>, V)>, key: Seq<char>)
    ensures
        match key_index(kv, key) {
            Some(i) => 0 <= i < kv.len() && kv[i].0 == key && forall|j: int|
                0 <= j < i ==> #[trigger] kv[j].0 != key,
            None => forall|j: int| 0 <= j < kv.len() ==> #[trigger] kv[j].0 != key,
        },
    decreases kv.len(),
{
    if kv.len() > 0 && kv[0].0 != key {
        let rest = kv.drop_first();
        lemma_key_index(rest, key);
        assert forall|j: int| 1 <= j < kv.len() implies kv[j].0 == rest[j - 1].0 by {}
        match key_index(rest, key) {
            Some(i) => {
                assert forall|j: int| 0 <= j < i + 1 implies #[trigger] kv[j].0 != key by {
                    if j > 0 {
                        assert(kv[j].0 == rest[j - 1].0);
                    }
                }
            },
            None => {
                assert forall|j: int| 0 <= j < kv.len() implies #[trigger] kv[j].0 != key by {
                    if j > 0 {
                        assert(kv[j].0 == rest[j - 1].0);
                    }
                }
            },
        }
    }
}

/// Setting one key leaves the value of every other key as it was, and gives
/// that key the new value.
pub proof fn lemma_set_key_keeps_others<V>(kv: Seq<(Seq<char>, V)>, key: Seq<char>, value: V, other: Seq<char>)
    ensures
        find_key(set_key(kv, key, value), key) == Some(value),
        other != key ==> find_key(set_key(kv, key, value), other) == find_key(kv, other),
{
    let t = set_key(kv, key, value);
    lemma_key_index(kv, key);
    lemma_key_index(kv, other);
    lemma_key_index(t, key);
    lemma_key_index(t, other);
    match key_index(kv, key) {
        Some(i) => {
            assert(t[i].0 == key);
            assert forall|j: int| 0 <= j < t.len() && j != i implies #[trigger] t[j] == kv[j] by {}
        },
        None => {
            assert(t[kv.len() as int].0 == key);
            assert forall|j: int| 0 <= j < kv.len() implies #[trigger] t[j] == kv[j] by {}
        },
    }
    match (key_index(t, key), key_index(kv, key)) {
        (Some(a), Some(b)) => {
            if a < b {
                assert(t[a] == kv[a]);
            }
        },
        (Some(a), None) => {
            if a < kv.len() {
                assert(t[a] == kv[a]);
            }
        },
        _ => {},
    }
    if other != key {
        match (key_index(t, other), key_index(kv, other)) {
            (Some(a), Some(b)) => {
                if a < b {
                    if a < kv.len() {
                        assert(t[a] == kv[a] || t[a].0 == key);
                    }
                } else if b < a {
                    assert(t[b] == kv[b] || kv[b].0 == key);
                }
                assert(a == b);
                assert(t[a] == kv[a] || kv[a].0 == key);
            },
            (Some(a), None) => {
                if a < kv.len() {
                    assert(t[a] == kv[a] || kv[a].0 == key);
                }
            },
            (None, Some(b)) => {
                assert(t[b] == kv[b] || kv[b].0 == key);
            },
            (None, None) => {},
        }
    }
}

/// The position of the first entry of `kv` with key `key`, if any.
fn find_key_index<V>(kv: &Vec<(String, V)>, key: &str) -> (r: Option<usize>)
    ensures
        match r {
            Some(i) => i < kv.len() && kv@[i as int].0@ == key@ && forall|j: int|
                0 <= j < i ==> #[trigger] kv@[j].0@ != key@,
            None => forall|j: int| 0 <= j < kv.len() ==> #[trigger] kv@[j].0@ != key@,
        },
{
    let target = String::from_str(key);
    let mut k: usize = 0;
    while k < kv.len()
        invariant
            k <= kv.len(),
            target@ == key@,
            forall|j: int| 0 <= j < k ==> #[trigger] kv@[j].0@ != key@,
        decreases kv.len() - k,
    {
        if kv[k].0 == target {
            return Some(k);
        }
        k += 1;
    }
    None
}

/// The string value of key `key` of a table, if it has one.
pub open spec fn str_field(kv: Seq<(Seq<char>, ScalarView)>, key: Seq<char>) -> Option<Seq<char>> {
    match find_key(kv, key) {
        Some(ScalarView::Str(s)) => Some(s),
        _ => None,
    }
}

/// The string value of key `key` of a table, if it has one.
fn str_field_of(kv: &Vec<(String, TomlScalar)>, key: &str) -> (r: Option<String>)
    ensures
        text::opt_view(r) == str_field(pairs_view(kv@), key@),
{
    let ghost pv = pairs_view(kv@);
    proof {
        lemma_key_index(pv, key@);
    }
    match find_key_index(kv, key) {
        Some(i) => {
            assert(pv[i as int] == (kv@[i as int].0@, scalar_view(kv@[i as int].1)));
            assert(key_index(pv, key@) == Some(i as int)) by {
                match key_index(pv, key@) {
                    Some(j) => {
                        if j < i {
                            assert(pv[j].0 == kv@[j].0@);
                        } else if j > i {
                            assert(pv[i as int].0 == kv@[i as int].0@);
                        }
                    },
                    None => {
                        assert(pv[i as int].0 == kv@[i as int].0@);
                    },
                }
            }
            match &kv[i].1 {
                TomlScalar::Str(s) => Some(s.clone()),
                TomlScalar::Other(_) => None,
            }
        },
        None => {
            assert(key_index(pv, key@) is None) by {
                if let Some(j) = key_index(pv, key@) {
                    assert(pv[j].0 == kv@[j].0@);
                }
            }
            None
        },
    }
}

/// A rule as the commands read it from a table: its string fields.
pub open spec fn rule_of_table(kv: Seq<(Seq<char>, ScalarView)>) -> PolicyRuleView {
    PolicyRuleView {
        name: str_field(kv, "name"@),
        priority: str_field(kv, "priority"@),
        action: str_field(kv, "action"@),
        tool_pattern: str_field(kv, "tool_pattern"@),
        arg_pattern: str_field(kv, "arg_pattern"@),
        reason: str_field(kv, "reason"@),
    }
}

/// A rule's string fields read from a table.
fn rule_fields(kv: &Vec<(String, TomlScalar)>) -> (r: PolicyRuleFields)
    ensures
        rule_view(r) == rule_of_table(pairs_view(kv@)),
{
    PolicyRuleFields {
        name: str_field_of(kv, "name"),
        priority: str_field_of(kv, "priority"),
        action: str_field_of(kv, "action"),
        tool_pattern: str_field_of(kv, "tool_pattern"),
        arg_pattern: str_field_of(kv, "arg_pattern"),
        reason: str_field_of(kv, "reason"),
    }
}

/// The entries of a policy file's `rules` array, when it has one.
pub open spec fn rules_entries(doc: Seq<(Seq<char>, ItemView)>) -> Option<Seq<EntryView>> {
    match find_key(doc, "rules"@) {
        Some(ItemView::Array(es)) => Some(es),
        _ => None,
    }
}

/// The entries of a policy file's `rules` array; none when it has none.
pub open spec fn entries_or_empty(doc: Seq<(Seq<char>, ItemView)>) -> Seq<EntryView> {
    match rules_entries(doc) {
        Some(es) => es,
        None => Seq::empty(),
    }
}

/// The rules listed from array entries: the tables, in order, each read
/// for its string fields; other entries are skipped.
pub open spec fn listed(es: Seq<EntryView>) -> Seq<PolicyRuleView>
    decreases es.len(),
{
    if es.len() == 0 {
        Seq::empty()
    } else {
        listed(es.drop_last()) + match es.last() {
            EntryView::Table(kv) => seq![rule_of_table(kv)],
            EntryView::Other(_) => Seq::empty(),
        }
    }
}

/// The approval mode of a policy file, when it is a string.
pub open spec fn approval_of(doc: Seq<(Seq<char>, ItemView)>) -> Option<Seq<char>> {
    match find_key(doc, "approval_mode"@) {
        Some(ItemView::Scalar(ScalarView::Str(s))) => Some(s),
        _ => None,
    }
}

/// The position of a top-level key of a policy file, related to the
/// mathematical value.
fn doc_key_index(d: &PolicyDocument, key: &str) -> (r: Option<usize>)
    ensures
        key_index(doc_view(*d), key@) == match r {
            Some(i) => Some(i as int),
            None => None::<int>,
        },
        r matches Some(i) ==> i < d.items.len() && d.items@[i as int].0@ == key@,
{
    let ghost dv = doc_view(*d);
    proof {
        lemma_key_index(dv, key@);
    }
    let r = find_key_index(&d.items, key);
    proof {
        match r {
            Some(i) => {
                match key_index(dv, key@) {
                    Some(j) => {
                        if j < i {
                            assert(dv[j].0 == d.items@[j].0@);
                        } else if j > i {
                            assert(dv[i as int].0 == d.items@[i as int].0@);
                        }
                    },
                    None => {
                        assert(dv[i as int].0 == d.items@[i as int].0@);
                    },
                }
            },
            None => {
                if let Some(j) = key_index(dv, key@) {
                    assert(dv[j].0 == d.items@[j].0@);
                }
            },
        }
    }
    r
}

/// The approval mode `policy list` shows: the file's when it is a string,
/// or `ask`.
pub fn shown_approval_mode(d: &PolicyDocument) -> (r: String)
    ensures
        r@ == match approval_of(doc_view(*d)) {
            Some(m) => m,
            None => "ask"@,
        },
{
    match doc_key_index(d, "approval_mode") {
        Some(i) => {
            assert(doc_view(*d)[i as int].1 == item_view(d.items@[i as int].1));
            match &d.items[i].1 {
                TomlItem::Scalar(TomlScalar::Str(m)) => m.clone(),
                _ => String::from_str("ask"),
            }
        },
        None => String::from_str("ask"),
    }
}

/// The rules `policy list` shows: the tables of the `rules` array, in
/// order, each read for its string fields; entries that are not tables are
/// skipped, and a file without a `rules` array lists none.
pub fn listed_rules(d: &PolicyDocument) -> (r: Vec<PolicyRuleFields>)
    ensures
        r@.map_values(|x: PolicyRuleFields| rule_view(x)) == listed(entries_or_empty(doc_view(*d))),
{
    let mut out: Vec<PolicyRuleFields> = Vec::new();
    let i = match doc_key_index(d, "rules") {
        Some(i) => i,
        None => {
            assert(out@.map_values(|x: PolicyRuleFields| rule_view(x)) =~= Seq::<PolicyRuleView>::empty());
            return out;
        },
    };
    assert(doc_view(*d)[i as int].1 == item_view(d.items@[i as int].1));
    let es = match &d.items[i].1 {
        TomlItem::Array(es) => es,
        TomlItem::Scalar(_) => {
            assert(out@.map_values(|x: PolicyRuleFields| rule_view(x)) =~= Seq::<PolicyRuleView>::empty());
            return out;
        },
    };
    let ghost ev = entries_view(es@);
    let mut k: usize = 0;
    while k < es.len()
        invariant
            k <= es.len(),
            ev == entries_view(es@),
            out@.map_values(|x: PolicyRuleFields| rule_view(x)) == listed(ev.take(k as int)),
        decreases es.len() - k,
    {
        assert(ev.take(k + 1).drop_last() =~= ev.take(k as int));
        assert(ev.take(k + 1).last() == entry_view(es@[k as int]));
        match &es[k] {
            TomlEntry::Table(kv) => {
                let f = rule_fields(kv);
                out.push(f);
            },
            TomlEntry::Other(_) => {},
        }
        assert(out@.map_values(|x: PolicyRuleFields| rule_view(x)) =~= listed(ev.take(k + 1)));
        k += 1;
    }
    assert(ev.take(es.len() as int) =~= ev);
    out
}

/// The number of rules `policy list` counts: those it lists.
pub fn rule_count(d: &PolicyDocument) -> (r: usize)
    ensures
        r == listed(entries_or_empty(doc_view(*d))).len(),
{
    let rs = listed_rules(d);
    rs.len()
}

/// Whether a new rule passes the checks of `validate_policy_rule`, and the
/// first error otherwise.
pub open spec fn validate_outcome(tool_pattern: Seq<char>, priority: Seq<char>, action: Seq<char>) -> Result<
    (),
    PolicyRuleError,
> {
    if tool_pattern.len() == 0 {
        Err(PolicyRuleError::MissingToolPattern)
    } else if !valid_priority(text::lowercase(priority)) {
        Err(PolicyRuleError::InvalidPriority)
    } else if !valid_action(text::lowercase(action)) {
        Err(PolicyRuleError::InvalidAction)
    } else {
        Ok(())
    }
}

/// An optional field as `policy add` stores it: absent when empty.
pub open spec fn stored(field: Option<String>) -> Option<String> {
    match field {
        Some(v) => if v@.len() > 0 {
            Some(v)
        } else {
            None
        },
        None => None,
    }
}

/// The rule `policy add` stores, once its priority and action are
/// checked (see `validate_policy_rule`): the name, the lower-cased priority
/// and action, the tool pattern, and the argument pattern and reason when
/// given and not empty.
pub fn new_policy_rule(
    name: String,
    priority: &str,
    action: &str,
    tool_pattern: String,
    arg_pattern: Option<String>,
    reason: Option<String>,
) -> (r: Result<PolicyRuleFields, PolicyRuleError>)
    ensures
        match validate_outcome(tool_pattern@, priority@, action@) {
            Err(e) => r == Err::<PolicyRuleFields, PolicyRuleError>(e),
            Ok(_) => r matches Ok(rule) && {
                &&& rule.name == Some(name)
                &&& text::opt_view(rule.priority) == Some(text::lowercase(priority@))
                &&& text::opt_view(rule.action) == Some(text::lowercase(action@))
                &&& rule.tool_pattern == Some(tool_pattern)
                &&& rule.arg_pattern == stored(arg_pattern)
                &&& rule.reason == stored(reason)
            },
        },
{
    let (p, a) = match validate_policy_rule(tool_pattern.as_str(), priority, action) {
        Ok(pa) => pa,
        Err(e) => return Err(e),
    };
    let arg_pattern = match arg_pattern {
        Some(v) => if chars_of(v.as_str()).len() > 0 {
            Some(v)
        } else {
            None
        },
        None => None,
    };
    let reason = match reason {
        Some(v) => if chars_of(v.as_str()).len() > 0 {
            Some(v)
        } else {
            None
        },
        None => None,
    };
    Ok(PolicyRuleFields {
        name: Some(name),
        priority: Some(p),
        action: Some(a),
        tool_pattern: Some(tool_pattern),
        arg_pattern,
        reason,
    })
}

/// The table `policy add` writes for a rule: its fields that are present,
/// as strings, in the order name, priority, action, tool pattern, argument
/// pattern, reason.
pub open spec fn rule_pairs(r: PolicyRuleView) -> Seq<(Seq<char>, ScalarView)> {
    opt_pair("name"@, r.name) + opt_pair("priority"@, r.priority) + opt_pair("action"@, r.action)
        + opt_pair("tool_pattern"@, r.tool_pattern) + opt_pair("arg_pattern"@, r.arg_pattern)
        + opt_pair("reason"@, r.reason)
}

/// A key with its string value when the value is present; nothing otherwise.
pub open spec fn opt_pair(key: Seq<char>, v: Option<Seq<char>>) -> Seq<(Seq<char>, ScalarView)> {
    match v {
        Some(t) => seq![(key, ScalarView::Str(t))],
        None => Seq::empty(),
    }
}

/// Adds a key with its string value to a table when the value is present.
fn push_opt_pair(kv: &mut Vec<(String, TomlScalar)>, key: &str, v: &Option<String>)
    ensures
        pairs_view(final(kv)@) == pairs_view(old(kv)@) + opt_pair(key@, text::opt_view(*v)),
{
    match v {
        Some(t) => {
            kv.push((String::from_str(key), TomlScalar::Str(t.clone())));
            assert(pairs_view(kv@) =~= pairs_view(old(kv)@) + opt_pair(key@, text::opt_view(*v)));
        },
        None => {
            assert(pairs_view(kv@) =~= pairs_view(old(kv)@) + opt_pair(key@, text::opt_view(*v)));
        },
    }
}

/// The table `policy add` writes for a rule.
fn rule_entry(rule: &PolicyRuleFields) -> (e: TomlEntry)
    ensures
        entry_view(e) == EntryView::Table(rule_pairs(rule_view(*rule))),
{
    let mut kv: Vec<(String, TomlScalar)> = Vec::new();
    assert(pairs_view(kv@) =~= Seq::<(Seq<char>, ScalarView)>::empty());
    push_opt_pair(&mut kv, "name", &rule.name);
    push_opt_pair(&mut kv, "priority", &rule.priority);
    push_opt_pair(&mut kv, "action", &rule.action);
    push_opt_pair(&mut kv, "tool_pattern", &rule.tool_pattern);
    push_opt_pair(&mut kv, "arg_pattern", &rule.arg_pattern);
    push_opt_pair(&mut kv, "reason", &rule.reason);
    assert(pairs_view(kv@) =~= rule_pairs(rule_view(*rule)));
    TomlEntry::Table(kv)
}

/// The policy file with `rule` added after the entries of its `rules`
/// array, as a table of its present fields; a `rules` array is made (in
/// place of any other `rules` value) when there is none. Everything else is
/// kept.
pub fn with_rule(d: PolicyDocument, rule: PolicyRuleFields) -> (r: PolicyDocument)
    ensures
        doc_view(r) == set_key(
            doc_view(d),
            "rules"@,
            ItemView::Array(entries_or_empty(doc_view(d)).push(EntryView::Table(rule_pairs(rule_view(rule))))),
        ),
{
    let entry = rule_entry(&rule);
    let ghost dv = doc_view(d);
    match doc_key_index(&d, "rules") {
        Some(i) => {
            assert(dv[i as int] == (d.items@[i as int].0@, item_view(d.items@[i as int].1)));
            let mut items = d.items;
            let (_, item) = items.remove(i);
            let mut entries: Vec<TomlEntry> = match item {
                TomlItem::Array(es) => es,
                TomlItem::Scalar(_) => Vec::new(),
            };
            let ghost before = entries_view(entries@);
            assert(before == entries_or_empty(dv));
            entries.push(entry);
            assert(entries_view(entries@) =~= before.push(EntryView::Table(rule_pairs(rule_view(rule)))));
            items.insert(i, (String::from_str("rules"), TomlItem::Array(entries)));
            let r = PolicyDocument { items };
            assert(doc_view(r) =~= dv.update(
                i as int,
                ("rules"@, ItemView::Array(before.push(EntryView::Table(rule_pairs(rule_view(rule)))))),
            ));
            r
        },
        None => {
            let mut items = d.items;
            let mut entries: Vec<TomlEntry> = Vec::new();
            entries.push(entry);
            items.push((String::from_str("rules"), TomlItem::Array(entries)));
            let r = PolicyDocument { items };
            assert(entries_view(entries@) =~= seq![EntryView::Table(rule_pairs(rule_view(rule)))]);
            assert(entries_or_empty(dv) =~= Seq::<EntryView>::empty());
            assert(doc_view(r) =~= dv.push(("rules"@, ItemView::Array(entries_view(entries@)))));
            r
        },
    }
}

/// Why `policy remove` removed nothing.
#[derive(Debug, Clone, PartialEq, Eq)]
pub enum RemoveRuleError {
    /// The file has no `rules` array.
    NoRules,
    /// No rule has that name.
    NotFound(String),
}

impl RemoveRuleError {
    /// The message shown for the error.
    pub fn message(&self) -> (r: String)
        ensures
            r@ == match self {
                RemoveRuleError::NoRules => "No rules found in policy file"@,
                RemoveRuleError::NotFound(n) => "Rule '"@ + n@ + "' not found"@,
            },
    {
        match self {
            RemoveRuleError::NoRules => String::from_str("No rules found in policy file"),
            RemoveRuleError::NotFound(n) => {
                let mut m = chars_of("Rule '");
                crate::text::push_str(&mut m, n.as_str());
                crate::text::push_str(&mut m, "' not found");
                string_from_chars(&m)
            },
        }
    }
}

/// Whether an entry of the `rules` array stays when the rule named `name`
/// is removed: every entry but the tables whose `name` is that string.
pub open spec fn entry_stays(e: EntryView, name: Seq<char>) -> bool {
    match e {
        EntryView::Table(kv) => str_field(kv, "name"@) != Some(name),
        EntryView::Other(_) => true,
    }
}

/// The entries that stay when the rule named `name` is removed, in order.
pub open spec fn kept_entries(es: Seq<EntryView>, name: Seq<char>) -> Seq<EntryView>
    decreases es.len(),
{
    if es.len() == 0 {
        es
    } else if entry_stays(es.last(), name) {
        kept_entries(es.drop_last(), name).push(es.last())
    } else {
        kept_entries(es.drop_last(), name)
    }
}

/// Whether an entry stays when the rule named `target` is removed.
fn stays_exec(e: &TomlEntry, target: &String) -> (r: bool)
    ensures
        r == entry_stays(entry_view(*e), target@),
{
    match e {
        TomlEntry::Table(kv) => match str_field_of(kv, "name") {
            Some(n) => !(n == *target),
            None => true,
        },
        TomlEntry::Other(_) => true,
    }
}

/// The policy file without the rules named `name`: the tables of the
/// `rules` array whose `name` is that string go, every other entry and
/// everything else is kept. It fails when the file has no `rules` array, or
/// no rule has that name.
pub fn without_rule(d: PolicyDocument, name: &str) -> (r: Result<PolicyDocument, RemoveRuleError>)
    ensures
        rules_entries(doc_view(d)) is None ==> r == Err::<PolicyDocument, RemoveRuleError>(
            RemoveRuleError::NoRules,
        ),
        rules_entries(doc_view(d)) is Some && (forall|i: int|
            0 <= i < entries_or_empty(doc_view(d)).len() ==> entry_stays(
                #[trigger] entries_or_empty(doc_view(d))[i],
                name@,
            )) ==> (r matches Err(RemoveRuleError::NotFound(n)) && n@ == name@),
        rules_entries(doc_view(d)) is Some && (exists|i: int|
            0 <= i < entries_or_empty(doc_view(d)).len() && !entry_stays(
                #[trigger] entries_or_empty(doc_view(d))[i],
                name@,
            )) ==> (r matches Ok(q) && doc_view(q) == set_key(
            doc_view(d),
            "rules"@,
            ItemView::Array(kept_entries(entries_or_empty(doc_view(d)), name@)),
        )),
{
    let ghost dv = doc_view(d);
    let i = match doc_key_index(&d, "rules") {
        Some(i) => i,
        None => {
            return Err(RemoveRuleError::NoRules);
        },
    };
    assert(dv[i as int] == (d.items@[i as int].0@, item_view(d.items@[i as int].1)));
    if let TomlItem::Scalar(_) = &d.items[i].1 {
        return Err(RemoveRuleError::NoRules);
    }
    let target = String::from_str(name);
    let mut items = d.items;
    let (_, item) = items.remove(i);
    let mut es = match item {
        TomlItem::Array(es) => es,
        TomlItem::Scalar(_) => Vec::new(),
    };
    let ghost ev = entries_view(es@);
    assert(ev.len() == es.len());
    assert(ev.skip(0) =~= ev);
    assert(Some(ev) == rules_entries(dv));
    let mut kept: Vec<TomlEntry> = Vec::new();
    let mut removed = false;
    let mut k: usize = 0;
    while es.len() > 0
        invariant
            k + es.len() == ev.len(),
            ev.len() <= usize::MAX,
            entries_view(es@) == ev.skip(k as int),
            target@ == name@,
            entries_view(kept@) == kept_entries(ev.take(k as int), name@),
            removed <==> exists|j: int| 0 <= j < k && !entry_stays(#[trigger] ev[j], name@),
        decreases es.len(),
    {
        let ghost es_before = es@;
        assert(entries_view(es_before)[0] == ev.skip(k as int)[0]);
        let e = es.remove(0);
        assert(es_before[0] == e);
        assert(ev[k as int] == entry_view(e));
        assert forall|j: int| 0 <= j < es@.len() implies entries_view(es@)[j] == ev.skip(k + 1)[j] by {
            assert(es@[j] == es_before[j + 1]);
            assert(entries_view(es_before)[j + 1] == ev.skip(k as int)[j + 1]);
        }
        assert(entries_view(es@) =~= ev.skip(k + 1));
        assert(ev.take(k + 1).drop_last() =~= ev.take(k as int));
        if stays_exec(&e, &target) {
            kept.push(e);
        } else {
            removed = true;
        }
        assert(entries_view(kept@) =~= kept_entries(ev.take(k + 1), name@));
        k += 1;
    }
    assert(ev.take(k as int) =~= ev);
    assert(entries_or_empty(dv) == ev);
    if !removed {
        assert forall|j: int| 0 <= j < ev.len() implies entry_stays(#[trigger] ev[j], name@) by {}
        return Err(RemoveRuleError::NotFound(target));
    }
    let ghost kv = entries_view(kept@);
    items.insert(i, (String::from_str("rules"), TomlItem::Array(kept)));
    let r = PolicyDocument { items };
    assert(doc_view(r) =~= dv.update(i as int, ("rules"@, ItemView::Array(kv))));
    Ok(r)
}

/// How `policy list --json` shows a rule: a missing name, tool pattern or
/// action as empty, a missing priority as `user`.
#[derive(Debug, Clone, PartialEq, Eq)]
pub struct PolicyRuleJson {
    pub name: String,
    pub tool_pattern: String,
    pub action: String,
    pub priority: String,
}

/// How `policy list --json` shows a rule's text fields.
pub fn rule_json(rule: &PolicyRuleFields) -> (r: PolicyRuleJson)
    ensures
        r.name@ == or_default(rule.name, ""@),
        r.tool_pattern@ == or_default(rule.tool_pattern, ""@),
        r.action@ == or_default(rule.action, ""@),
        r.priority@ == or_default(rule.priority, "user"@),
{
    PolicyRuleJson {
        name: field_or(&rule.name, ""),
        tool_pattern: field_or(&rule.tool_pattern, ""),
        action: field_or(&rule.action, ""),
        priority: field_or(&rule.priority, "user"),
    }
}

impl PolicyRuleError {
    /// The message shown for the error.
    pub fn message(&self) -> (r: String)
        ensures
            r@ == match self {
                PolicyRuleError::MissingToolPattern => "Tool pattern is required"@,
                PolicyRuleError::InvalidPriority => "Priority must be one of: admin, user, default"@,
                PolicyRuleError::InvalidAction => "Action must be one of: allow, deny, ask_user"@,
            },
    {
        match self {
            PolicyRuleError::MissingToolPattern => String::from_str("Tool pattern is required"),
            PolicyRuleError::InvalidPriority => String::from_str("Priority must be one of: admin, user, default"),
            PolicyRuleError::InvalidAction => String::from_str("Action must be one of: allow, deny, ask_user"),
        }
    }
}


/// The priorities a rule may have are exactly `admin`, `user` and `default`,
/// and its actions exactly `allow`, `deny` and `ask_user`.
pub proof fn lemma_rule_vocabulary(p: Seq<char>, a: Seq<char>)
    ensures
        valid_priority(p) <==> (p == "admin"@ || p == "user"@ || p == "default"@),
        valid_action(a) <==> (a == "allow"@ || a == "deny"@ || a == "ask_user"@),
{
}

/// A new rule with a tool pattern is accepted exactly when its lower-cased
/// priority is `admin`, `user` or `default` and its lower-cased action is
/// `allow`, `deny` or `ask_user`; an empty tool pattern is always refused
/// first, and a bad priority is reported before a bad action.
pub proof fn lemma_rule_acceptance(tool_pattern: Seq<char>, priority: Seq<char>, action: Seq<char>)
    ensures
        validate_outcome(tool_pattern, priority, action) is Ok <==> (tool_pattern.len() > 0 && (
        text::lowercase(priority) == "admin"@ || text::lowercase(priority) == "user"@
            || text::lowercase(priority) == "default"@) && (text::lowercase(action) == "allow"@
            || text::lowercase(action) == "deny"@ || text::lowercase(action) == "ask_user"@)),
        tool_pattern.len() == 0 ==> validate_outcome(tool_pattern, priority, action) == Err::<
            (),
            PolicyRuleError,
        >(PolicyRuleError::MissingToolPattern),
        tool_pattern.len() > 0 && !(text::lowercase(priority) == "admin"@ || text::lowercase(
            priority,
        ) == "user"@ || text::lowercase(priority) == "default"@) ==> validate_outcome(
            tool_pattern,
            priority,
            action,
        ) == Err::<(), PolicyRuleError>(PolicyRuleError::InvalidPriority),
{
}

} // verus!
