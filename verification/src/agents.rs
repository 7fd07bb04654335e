//! Options of the agent commands: performance profiles, reasoning effort,
//! sort orders and tag lists as typed on the command line, the token
//! estimates of a cost query, the agent id format, the errors found when
//! validating an agent's configuration, and strict linting.
use vstd::prelude::*;
use crate::text;
use crate::paths;
use crate::template;
use crate::text::{chars_of, push_str, split_chars, str_to_lowercase, string_from_chars, trim_chars};

verus! {

/// The performance profile of an agent persona.
#[derive(Debug, Clone, Copy, PartialEq, Eq)]
pub enum PerformanceProfile {
    Speed,
    Balanced,
    Thinking,
    Expert,
}

/// The profile named by `s`, compared without regard to case; `None` for
/// any other text.
pub open spec fn profile_named(s: Seq<char>) -> Option<PerformanceProfile> {
    profile_of_lowered(text::lowercase(s))
}

/// The profile named by an already lower-cased text.
pub open spec fn profile_of_lowered(l: Seq<char>) -> Option<PerformanceProfile> {
    if l == "speed"@ {
        Some(PerformanceProfile::Speed)
    } else if l == "balanced"@ {
        Some(PerformanceProfile::Balanced)
    } else if l == "thinking"@ {
        Some(PerformanceProfile::Thinking)
    } else if l == "expert"@ {
        Some(PerformanceProfile::Expert)
    } else {
        None
    }
}

/// The performance profile a `--profile` filter names (`speed`,
/// `balanced`, `thinking` or `expert`, in any case); `None` when invalid.
pub fn parse_performance_profile(profile: &str) -> (r: Option<PerformanceProfile>)
    ensures
        r == profile_named(profile@),
{
    let l = str_to_lowercase(profile);
    profile_from_lowered(&l)
}

/// The performance profile an already lower-cased `--profile` filter names.
pub fn profile_from_lowered(l: &String) -> (r: Option<PerformanceProfile>)
    ensures
        r == profile_of_lowered(l@),
{
    if *l == String::from_str("speed") {
        Some(PerformanceProfile::Speed)
    } else if *l == String::from_str("balanced") {
        Some(PerformanceProfile::Balanced)
    } else if *l == String::from_str("thinking") {
        Some(PerformanceProfile::Thinking)
    } else if *l == String::from_str("expert") {
        Some(PerformanceProfile::Expert)
    } else {
        None
    }
}

/// How much reasoning an agent is configured for.
#[derive(Debug, Clone, Copy, PartialEq, Eq)]
pub enum ReasoningEffort {
    Low,
    Medium,
    High,
}

/// The reasoning effort named by `s`, without regard to case.
pub open spec fn effort_named(s: Seq<char>) -> Option<ReasoningEffort> {
    effort_of_lowered(text::lowercase(s))
}

/// The reasoning effort named by an already lower-cased text.
pub open spec fn effort_of_lowered(l: Seq<char>) -> Option<ReasoningEffort> {
    if l == "low"@ {
        Some(ReasoningEffort::Low)
    } else if l == "medium"@ {
        Some(ReasoningEffort::Medium)
    } else if l == "high"@ {
        Some(ReasoningEffort::High)
    } else {
        None
    }
}

/// The reasoning effort of a new agent: `low`, `medium` or `high` in any
/// case; none when absent or unrecognised.
pub fn parse_reasoning_effort(reasoning: Option<&str>) -> (r: Option<ReasoningEffort>)
    ensures
        r == match reasoning {
            Some(s) => effort_named(s@),
            None => None,
        },
{
    match reasoning {
        None => None,
        Some(s) => {
            let l = str_to_lowercase(s);
            effort_from_lowered(&l)
        },
    }
}

/// The reasoning effort an already lower-cased text names.
pub fn effort_from_lowered(l: &String) -> (r: Option<ReasoningEffort>)
    ensures
        r == effort_of_lowered(l@),
{
    if *l == String::from_str("low") {
        Some(ReasoningEffort::Low)
    } else if *l == String::from_str("medium") {
        Some(ReasoningEffort::Medium)
    } else if *l == String::from_str("high") {
        Some(ReasoningEffort::High)
    } else {
        None
    }
}

/// A field search results can be sorted by.
#[derive(Debug, Clone, Copy, PartialEq, Eq)]
pub enum SortField {
    Name,
    Category,
    Engine,
    Model,
    Id,
}

/// The order of search results.
#[derive(Debug, Clone, PartialEq, Eq)]
pub enum SortOrder {
    Name,
    Category,
    Engine,
    /// By several fields, the first deciding first.
    Multiple(Vec<SortField>),
}

/// The sort field a trimmed, lower-cased word names.
pub open spec fn field_named(w: Seq<char>) -> Option<SortField> {
    if w == "name"@ {
        Some(SortField::Name)
    } else if w == "category"@ {
        Some(SortField::Category)
    } else if w == "engine"@ {
        Some(SortField::Engine)
    } else if w == "model"@ {
        Some(SortField::Model)
    } else if w == "id"@ {
        Some(SortField::Id)
    } else {
        None
    }
}

/// The sort fields named by the comma-separated parts, unrecognised ones
/// left out.
pub open spec fn fields_named(parts: Seq<Seq<char>>) -> Seq<SortField>
    decreases parts.len(),
{
    if parts.len() == 0 {
        Seq::empty()
    } else {
        fields_named(parts.drop_last()) + match field_named(
            text::lowercase(text::trim(parts.last())),
        ) {
            Some(f) => seq![f],
            None => Seq::empty(),
        }
    }
}

/// The sort order a `--sort` option names, and whether it was recognised.
/// With commas it lists fields (`name`, `category`, `engine`, `model`,
/// `id`), unrecognised ones being skipped and an empty list meaning by
/// name; without, it is `name`, `category` or `engine` in any case, and
/// anything else is unrecognised and sorts by name.
pub open spec fn sort_named(s: Seq<char>) -> (SortOrderView, bool) {
    if text::contains(s, seq![',']) {
        let fs = fields_named(text::split(s, ','));
        if fs.len() == 0 {
            (SortOrderView::Name, true)
        } else {
            (SortOrderView::Multiple(fs), true)
        }
    } else {
        single_sort_of_lowered(text::lowercase(s))
    }
}

/// The sort order an already lower-cased option without commas names, and
/// whether it was recognised.
pub open spec fn single_sort_of_lowered(l: Seq<char>) -> (SortOrderView, bool) {
    if l == "name"@ {
        (SortOrderView::Name, true)
    } else if l == "category"@ {
        (SortOrderView::Category, true)
    } else if l == "engine"@ {
        (SortOrderView::Engine, true)
    } else {
        (SortOrderView::Name, false)
    }
}

/// A sort order as a mathematical value.
pub ghost enum SortOrderView {
    Name,
    Category,
    Engine,
    Multiple(Seq<SortField>),
}

/// The mathematical value of a sort order.
pub open spec fn sort_view(o: SortOrder) -> SortOrderView {
    match o {
        SortOrder::Name => SortOrderView::Name,
        SortOrder::Category => SortOrderView::Category,
        SortOrder::Engine => SortOrderView::Engine,
        SortOrder::Multiple(v) => SortOrderView::Multiple(v@),
    }
}

/// The sort field named by one part of a multi-field sort option.
fn parse_sort_field(part: &Vec<char>) -> (r: Option<SortField>)
    ensures
        r == field_named(text::lowercase(text::trim(part@))),
{
    let t = string_from_chars(&trim_chars(part));
    let w = str_to_lowercase(t.as_str());
    sort_field_from_lowered(&w)
}

/// The sort field an already lower-cased, trimmed part of a multi-field
/// sort option names.
pub fn sort_field_from_lowered(w: &String) -> (r: Option<SortField>)
    ensures
        r == field_named(w@),
{
    if *w == String::from_str("name") {
        Some(SortField::Name)
    } else if *w == String::from_str("category") {
        Some(SortField::Category)
    } else if *w == String::from_str("engine") {
        Some(SortField::Engine)
    } else if *w == String::from_str("model") {
        Some(SortField::Model)
    } else if *w == String::from_str("id") {
        Some(SortField::Id)
    } else {
        None
    }
}

/// The sort order of a `--sort` option, and whether it was recognised (an
/// unrecognised single field sorts by name, with a warning).
pub fn parse_sort_order(sort: &str) -> (r: (SortOrder, bool))
    ensures
        (sort_view(r.0), r.1) == sort_named(sort@),
{
    let chars = chars_of(sort);
    let comma = vec![','];
    assert(comma@ =~= seq![',']);
    if text::contains_chars(&chars, &comma) {
        let parts = split_chars(&chars, ',');
        let ghost ps = text::split(sort@, ',');
        let mut fields: Vec<SortField> = Vec::new();
        let mut k: usize = 0;
        while k < parts.len()
            invariant
                k <= parts.len(),
                ps == text::split(sort@, ','),
                text::views(parts@) == ps,
                fields@ == fields_named(ps.take(k as int)),
            decreases parts.len() - k,
        {
            assert(ps.take(k + 1).drop_last() =~= ps.take(k as int));
            assert(ps.take(k + 1).last() == parts@[k as int]@);
            match parse_sort_field(&parts[k]) {
                Some(f) => {
                    fields.push(f);
                },
                None => {},
            }
            assert(fields@ =~= fields_named(ps.take(k + 1)));
            k += 1;
        }
        assert(ps.take(parts.len() as int) =~= ps);
        if fields.len() == 0 {
            (SortOrder::Name, true)
        } else {
            (SortOrder::Multiple(fields), true)
        }
    } else {
        let l = str_to_lowercase(sort);
        single_sort_from_lowered(&l)
    }
}

/// The sort order an already lower-cased `--sort` option without commas
/// names, and whether it was recognised (anything else sorts by name).
pub fn single_sort_from_lowered(l: &String) -> (r: (SortOrder, bool))
    ensures
        (sort_view(r.0), r.1) == single_sort_of_lowered(l@),
{
    if *l == String::from_str("name") {
        (SortOrder::Name, true)
    } else if *l == String::from_str("category") {
        (SortOrder::Category, true)
    } else if *l == String::from_str("engine") {
        (SortOrder::Engine, true)
    } else {
        (SortOrder::Name, false)
    }
}

/// The tags of a comma-separated tag list, each trimmed; empty parts stay.
pub fn split_tags(tags: &str) -> (r: Vec<String>)
    ensures
        r@.map_values(|t: String| t@) == text::split(tags@, ',').map_values(
            |p: Seq<char>| text::trim(p),
        ),
{
    let chars = chars_of(tags);
    let parts = split_chars(&chars, ',');
    let ghost ps = text::split(tags@, ',');
    let mut out: Vec<String> = Vec::new();
    let mut k: usize = 0;
    while k < parts.len()
        invariant
            k <= parts.len(),
            ps == text::split(tags@, ','),
            text::views(parts@) == ps,
            out@.map_values(|t: String| t@) == ps.take(k as int).map_values(
                |p: Seq<char>| text::trim(p),
            ),
        decreases parts.len() - k,
    {
        assert(ps[k as int] == parts@[k as int]@);
        let t = string_from_chars(&trim_chars(&parts[k]));
        assert(t@ == text::trim(ps[k as int]));
        let ghost prev = out@;
        out.push(t);
        assert(out@.map_values(|t: String| t@) =~= prev.map_values(|t: String| t@).push(t@));
        assert(ps.take(k + 1).map_values(|p: Seq<char>| text::trim(p)) =~= ps.take(
            k as int,
        ).map_values(|p: Seq<char>| text::trim(p)).push(text::trim(ps[k as int])));
        assert(out@.map_values(|t: String| t@) =~= ps.take(k + 1).map_values(
            |p: Seq<char>| text::trim(p),
        ));
        k += 1;
    }
    assert(ps.take(parts.len() as int) =~= ps);
    out
}

/// The input and output token counts of a cost estimate: the ones given,
/// or else half of the persona's estimated tokens each, or else 1000 input
/// and 500 output tokens.
pub fn estimate_tokens(
    input_tokens: Option<u64>,
    output_tokens: Option<u64>,
    persona_estimate: Option<u64>,
) -> (r: (u64, u64))
    ensures
        r.0 == match input_tokens {
            Some(i) => i,
            None => match persona_estimate {
                Some(t) => t / 2,
                None => 1000,
            },
        },
        r.1 == match output_tokens {
            Some(o) => o,
            None => match persona_estimate {
                Some(t) => t / 2,
                None => 500,
            },
        },
{
    let input = match input_tokens {
        Some(i) => i,
        None => match persona_estimate {
            Some(t) => t / 2,
            None => 1000,
        },
    };
    let output = match output_tokens {
        Some(o) => o,
        None => match persona_estimate {
            Some(t) => t / 2,
            None => 500,
        },
    };
    (input, output)
}

/// Whether an agent id is in kebab case: lower-case ASCII letters, digits
/// and hyphens only.
pub open spec fn is_kebab_case(id: Seq<char>) -> bool {
    forall|k: int|
        0 <= k < id.len() ==> ('a' <= #[trigger] id[k] <= 'z' || '0' <= id[k] <= '9' || id[k]
            == '-')
}

/// Whether an agent id is in kebab case (lower-case letters, digits, hyphens).
pub fn is_kebab_case_id(id: &str) -> (r: bool)
    ensures
        r == is_kebab_case(id@),
{
    let cs = chars_of(id);
    let mut k: usize = 0;
    while k < cs.len()
        invariant
            k <= cs.len(),
            cs@ == id@,
            forall|j: int|
                0 <= j < k ==> ('a' <= #[trigger] cs@[j] <= 'z' || '0' <= cs@[j] <= '9' || cs@[j]
                    == '-'),
        decreases cs.len() - k,
    {
        let c = cs[k];
        if !(('a' <= c && c <= 'z') || ('0' <= c && c <= '9') || c == '-') {
            return false;
        }
        k += 1;
    }
    true
}

/// The message of a check that failed on an agent's configuration.
pub open spec fn id_error(id: Seq<char>) -> Seq<char> {
    "Agent ID '"@ + id + "' must be in kebab-case (lowercase letters, numbers, hyphens only)"@
}

/// The errors found in a loaded agent configuration, in the order they are
/// checked: the id's form, the prompt file (whose errors `prompt_errors`
/// holds, as found on disk), the loop behaviour (its steps and, when set,
/// its maximum of iterations must be positive), and the capabilities (at
/// least one concurrent task).
pub open spec fn config_errors(
    id: Seq<char>,
    prompt_errors: Seq<Seq<char>>,
    loop_behavior: Option<(usize, Option<usize>)>,
    max_concurrent_tasks: usize,
) -> Seq<Seq<char>> {
    (if is_kebab_case(id) {
        Seq::empty()
    } else {
        seq![id_error(id)]
    }) + prompt_errors + match loop_behavior {
        Some((steps, max_iterations)) => (if steps == 0 {
            seq!["Loop behavior: steps must be greater than 0"@]
        } else {
            Seq::empty()
        }) + (if max_iterations == Some(0usize) {
            seq!["Loop behavior: max_iterations must be greater than 0"@]
        } else {
            Seq::empty()
        }),
        None => Seq::empty(),
    } + if max_concurrent_tasks == 0 {
        seq!["Capabilities: max_concurrent_tasks must be greater than 0"@]
    } else {
        Seq::empty()
    }
}

/// The errors `rad agents validate` reports for a loaded agent
/// configuration; the configuration is valid when there are none.
pub fn agent_config_errors(
    id: &str,
    prompt_errors: Vec<String>,
    loop_behavior: Option<(usize, Option<usize>)>,
    max_concurrent_tasks: usize,
) -> (r: Vec<String>)
    ensures
        text::strings_view(r@) == config_errors(
            id@,
            text::strings_view(prompt_errors@),
            loop_behavior,
            max_concurrent_tasks,
        ),
{
    let mut errors: Vec<String> = Vec::new();
    if !is_kebab_case_id(id) {
        let mut m = chars_of("Agent ID '");
        push_str(&mut m, id);
        push_str(&mut m, "' must be in kebab-case (lowercase letters, numbers, hyphens only)");
        errors.push(string_from_chars(&m));
    }
    assert(text::strings_view(errors@) =~= if is_kebab_case(id@) {
        Seq::<Seq<char>>::empty()
    } else {
        seq![id_error(id@)]
    });
    let ghost head = text::strings_view(errors@);
    let ghost n0 = errors.len();
    let mut k: usize = 0;
    while k < prompt_errors.len()
        invariant
            k <= prompt_errors.len(),
            errors.len() == n0 + k,
            head.len() == n0,
            text::strings_view(prompt_errors@).len() == prompt_errors.len(),
            text::strings_view(errors@) == head + text::strings_view(prompt_errors@).take(k as int),
        decreases prompt_errors.len() - k,
    {
        let ghost before = errors@;
        errors.push(prompt_errors[k].clone());
        proof {
            let want = head + text::strings_view(prompt_errors@).take(k + 1);
            assert(errors@ == before.push(prompt_errors@[k as int]));
            assert forall|i: int| 0 <= i < errors.len() implies #[trigger] text::strings_view(errors@)[i]
                == want[i] by {
                if i < n0 + k {
                    assert(text::strings_view(before)[i] == (head + text::strings_view(
                        prompt_errors@,
                    ).take(k as int))[i]);
                }
            }
            assert(text::strings_view(errors@) =~= want);
        }
        k += 1;
    }
    assert(text::strings_view(prompt_errors@).take(k as int) =~= text::strings_view(prompt_errors@));
    let ghost mid = text::strings_view(errors@);
    if let Some((steps, max_iterations)) = loop_behavior {
        if steps == 0 {
            errors.push(String::from_str("Loop behavior: steps must be greater than 0"));
        }
        if max_iterations == Some(0usize) {
            errors.push(String::from_str("Loop behavior: max_iterations must be greater than 0"));
        }
    }
    let ghost tail = text::strings_view(errors@);
    assert(tail =~= mid + match loop_behavior {
        Some((steps, max_iterations)) => (if steps == 0 {
            seq!["Loop behavior: steps must be greater than 0"@]
        } else {
            Seq::empty()
        }) + (if max_iterations == Some(0usize) {
            seq!["Loop behavior: max_iterations must be greater than 0"@]
        } else {
            Seq::empty()
        }),
        None => Seq::empty(),
    });
    if max_concurrent_tasks == 0 {
        errors.push(String::from_str("Capabilities: max_concurrent_tasks must be greater than 0"));
    }
    assert(text::strings_view(errors@) =~= config_errors(
        id@,
        text::strings_view(prompt_errors@),
        loop_behavior,
        max_concurrent_tasks,
    ));
    errors
}

/// The errors of an agent whose configuration file is unknown: its name
/// and its prompt path must not be empty.
pub open spec fn basic_errors(name: Seq<char>, prompt_path: Seq<char>) -> Seq<Seq<char>> {
    (if name.len() == 0 {
        seq!["Name is empty"@]
    } else {
        Seq::empty()
    }) + if prompt_path.len() == 0 {
        seq!["Prompt path is empty"@]
    } else {
        Seq::empty()
    }
}

/// The errors of an agent known without its configuration file; such an
/// agent counts as invalid whatever they are.
pub fn agent_basic_errors(name: &str, prompt_path: &str) -> (r: Vec<String>)
    ensures
        text::strings_view(r@) == basic_errors(name@, prompt_path@),
{
    let mut errors: Vec<String> = Vec::new();
    if chars_of(name).len() == 0 {
        errors.push(String::from_str("Name is empty"));
    }
    if chars_of(prompt_path).len() == 0 {
        errors.push(String::from_str("Prompt path is empty"));
    }
    assert(text::strings_view(errors@) =~= basic_errors(name@, prompt_path@));
    errors
}

/// The findings of linting one prompt template.
#[derive(Debug, Clone, PartialEq, Eq)]
pub struct LintFindings {
    /// Whether the template passed.
    pub valid: bool,
    /// What is wrong with it.
    pub errors: Vec<String>,
    /// What may be wrong with it.
    pub warnings: Vec<String>,
}

/// Lint findings in strict mode: when there are warnings, the template
/// fails and the warnings join the errors; otherwise nothing changes.
pub fn strict_findings(f: LintFindings, strict: bool) -> (r: LintFindings)
    ensures
        strict && f.warnings.len() > 0 ==> !r.valid && r.errors@ == f.errors@ + f.warnings@
            && r.warnings@.len() == 0,
        !(strict && f.warnings.len() > 0) ==> r == f,
{
    if strict && f.warnings.len() > 0 {
        let mut errors = f.errors;
        let mut warnings = f.warnings;
        errors.append(&mut warnings);
        LintFindings { valid: false, errors, warnings }
    } else {
        f
    }
}


/// What reading the YAML frontmatter of an agent's prompt gave.
#[derive(Debug, Clone, PartialEq, Eq)]
pub enum FrontmatterOutcome {
    /// The metadata was read: the agent's name and colour.
    Parsed { name: String, color: String },
    /// The frontmatter could not be read, for this reason.
    Failed(String),
}

/// What a frontmatter reading adds to an agent's validation.
#[derive(Debug, Clone, PartialEq, Eq)]
pub enum FrontmatterFinding {
    /// Nothing.
    Nothing,
    /// A warning with this text.
    Warning(String),
    /// An error with this text; the agent is invalid.
    Error(String),
}

/// What a frontmatter reading adds to an agent's validation: in verbose
/// mode a note of the metadata read; for a frontmatter that cannot be read,
/// an error in strict mode and a warning otherwise.
pub fn frontmatter_finding(outcome: &FrontmatterOutcome, strict: bool, verbose: bool) -> (r:
    FrontmatterFinding)
    ensures
        match outcome {
            FrontmatterOutcome::Parsed { name, color } => if verbose {
                r matches FrontmatterFinding::Warning(w) && w@ == "Metadata parsed: name="@ + name@
                    + ", color="@ + color@
            } else {
                r == FrontmatterFinding::Nothing
            },
            FrontmatterOutcome::Failed(e) => if strict {
                r matches FrontmatterFinding::Error(m) && m@ == "YAML frontmatter parsing error: "@
                    + e@
            } else {
                r matches FrontmatterFinding::Warning(m) && m@
                    == "YAML frontmatter parsing warning: "@ + e@
            },
        },
{
    match outcome {
        FrontmatterOutcome::Parsed { name, color } => {
            if verbose {
                let mut m = chars_of("Metadata parsed: name=");
                push_str(&mut m, name.as_str());
                push_str(&mut m, ", color=");
                push_str(&mut m, color.as_str());
                FrontmatterFinding::Warning(string_from_chars(&m))
            } else {
                FrontmatterFinding::Nothing
            }
        },
        FrontmatterOutcome::Failed(e) => {
            if strict {
                let mut m = chars_of("YAML frontmatter parsing error: ");
                push_str(&mut m, e.as_str());
                FrontmatterFinding::Error(string_from_chars(&m))
            } else {
                let mut m = chars_of("YAML frontmatter parsing warning: ");
                push_str(&mut m, e.as_str());
                FrontmatterFinding::Warning(string_from_chars(&m))
            }
        },
    }
}

/// The number of validated agents that passed: each given by whether it is
/// valid and its number of errors, passing when valid with no error.
pub open spec fn passed_count(results: Seq<(bool, usize)>) -> nat
    decreases results.len(),
{
    if results.len() == 0 {
        0
    } else {
        passed_count(results.drop_last()) + if results.last().0 && results.last().1 == 0 {
            1nat
        } else {
            0nat
        }
    }
}

/// The numbers of validated agents that passed and that did not, each
/// agent given by whether it is valid and its number of errors: one passes
/// when it is valid and has no error, and fails otherwise.
pub fn validation_counts(results: &Vec<(bool, usize)>) -> (r: (usize, usize))
    ensures
        r.0 == passed_count(results@),
        r.0 + r.1 == results.len(),
{
    let mut passed: usize = 0;
    let mut failed: usize = 0;
    let mut k: usize = 0;
    while k < results.len()
        invariant
            k <= results.len(),
            passed == passed_count(results@.take(k as int)),
            passed + failed == k,
        decreases results.len() - k,
    {
        assert(results@.take(k + 1).drop_last() =~= results@.take(k as int));
        let (valid, errors) = results[k];
        if valid && errors == 0 {
            passed += 1;
        } else {
            failed += 1;
        }
        k += 1;
    }
    assert(results@.take(results.len() as int) =~= results@);
    (passed, failed)
}

/// The details of a new agent as given on the command line, each of them
/// optional.
#[derive(Debug, Clone, PartialEq, Eq)]
pub struct AgentDetailDefaults {
    pub id: Option<String>,
    pub name: Option<String>,
    pub description: Option<String>,
    pub category: Option<String>,
    pub engine: Option<String>,
    pub model: Option<String>,
    pub reasoning: Option<String>,
}

/// The lines typed when a new agent's details are asked for, one per
/// detail.
#[derive(Debug, Clone, PartialEq, Eq)]
pub struct AgentDetailAnswers {
    pub id: String,
    pub name: String,
    pub description: String,
    pub category: String,
    pub engine: String,
    pub model: String,
    pub reasoning: String,
}

/// The details of a new agent.
#[derive(Debug, Clone, PartialEq, Eq)]
pub struct AgentDetails {
    pub id: String,
    pub name: String,
    pub description: Option<String>,
    pub category: Option<String>,
    pub engine: Option<String>,
    pub model: Option<String>,
    pub reasoning: Option<String>,
}

/// Why a new agent's details were refused.
#[derive(Debug, Clone, Copy, PartialEq, Eq)]
pub enum AgentDetailsError {
    /// No id was given and none was asked for.
    IdRequired,
    /// No name was given and none was asked for.
    NameRequired,
    /// The id is empty.
    EmptyId,
}

impl AgentDetailsError {
    /// The message shown for the refusal.
    pub fn message(&self) -> (r: String)
        ensures
            r@ == match self {
                AgentDetailsError::IdRequired => "Agent ID is required (use --interactive to prompt)"@,
                AgentDetailsError::NameRequired => "Agent name is required (use --interactive to prompt)"@,
                AgentDetailsError::EmptyId => "Agent ID cannot be empty"@,
            },
    {
        match self {
            AgentDetailsError::IdRequired => String::from_str(
                "Agent ID is required (use --interactive to prompt)",
            ),
            AgentDetailsError::NameRequired => String::from_str(
                "Agent name is required (use --interactive to prompt)",
            ),
            AgentDetailsError::EmptyId => String::from_str("Agent ID cannot be empty"),
        }
    }
}

/// The value kept for one detail of a new agent: the line typed, without
/// surrounding whitespace, when that is not empty; otherwise the value
/// given beforehand, if any.
pub open spec fn answered(typed: Seq<char>, given: Option<Seq<char>>) -> Option<Seq<char>> {
    if text::trim(typed).len() > 0 {
        Some(text::trim(typed))
    } else {
        given
    }
}

/// An optional text, or the empty text in its absence.
pub open spec fn or_empty(o: Option<Seq<char>>) -> Seq<char> {
    match o {
        Some(s) => s,
        None => Seq::empty(),
    }
}

/// Whether `d` holds the details kept from the lines typed and the values
/// given beforehand.
pub open spec fn kept_details(
    d: AgentDetails,
    answers: AgentDetailAnswers,
    given: AgentDetailDefaults,
) -> bool {
    &&& Some(d.id@) == answered(answers.id@, text::opt_view(given.id))
    &&& d.name@ == or_empty(answered(answers.name@, text::opt_view(given.name)))
    &&& text::opt_view(d.description) == answered(
        answers.description@,
        text::opt_view(given.description),
    )
    &&& text::opt_view(d.category) == answered(answers.category@, text::opt_view(given.category))
    &&& text::opt_view(d.engine) == answered(answers.engine@, text::opt_view(given.engine))
    &&& text::opt_view(d.model) == answered(answers.model@, text::opt_view(given.model))
    &&& text::opt_view(d.reasoning) == answered(
        answers.reasoning@,
        text::opt_view(given.reasoning),
    )
}

/// The value kept for one detail of a new agent from the line typed for it
/// and the value given beforehand.
pub fn detail_answer(typed: &str, given: Option<String>) -> (r: Option<String>)
    ensures
        text::opt_view(r) == answered(typed@, text::opt_view(given)),
{
    let t = trim_chars(&chars_of(typed));
    if t.len() > 0 {
        Some(string_from_chars(&t))
    } else {
        given
    }
}

/// The id kept for a new agent from the line typed for it and the id given
/// beforehand: the typed id, trimmed, or else the given one, even empty; with
/// neither, the id is refused as empty.
pub fn id_answer(typed: &str, given: Option<String>) -> (r: Result<String, AgentDetailsError>)
    ensures
        answered(typed@, text::opt_view(given)) matches Some(a) ==> (r matches Ok(id) && id@
            == a),
        answered(typed@, text::opt_view(given)) is None ==> r == Err::<String, AgentDetailsError>(
            AgentDetailsError::EmptyId,
        ),
{
    match detail_answer(typed, given) {
        Some(id) => Ok(id),
        None => Err(AgentDetailsError::EmptyId),
    }
}

/// The details of a new agent asked for one by one: each detail is the line
/// typed for it, trimmed, or the value given beforehand when that line is
/// blank; a missing name is empty. With no id typed and none given, the id
/// is refused as empty; a given id is kept even when it is empty.
pub fn agent_details(answers: &AgentDetailAnswers, given: AgentDetailDefaults) -> (r: Result<
    AgentDetails,
    AgentDetailsError,
>)
    ensures
        answered(answers.id@, text::opt_view(given.id)) is None ==> r == Err::<
            AgentDetails,
            AgentDetailsError,
        >(AgentDetailsError::EmptyId),
        answered(answers.id@, text::opt_view(given.id)) is Some ==> (r matches Ok(d)
            && kept_details(d, *answers, given)),
{
    let AgentDetailDefaults { id, name, description, category, engine, model, reasoning } = given;
    let id = match id_answer(answers.id.as_str(), id) {
        Ok(id) => id,
        Err(e) => {
            return Err(e);
        },
    };
    let name = match detail_answer(answers.name.as_str(), name) {
        Some(n) => n,
        None => String::new(),
    };
    Ok(
        AgentDetails {
            id,
            name,
            description: detail_answer(answers.description.as_str(), description),
            category: detail_answer(answers.category.as_str(), category),
            engine: detail_answer(answers.engine.as_str(), engine),
            model: detail_answer(answers.model.as_str(), model),
            reasoning: detail_answer(answers.reasoning.as_str(), reasoning),
        },
    )
}

/// The details of a new agent taken as given, without asking: the id and
/// the name must be there.
pub fn given_agent_details(given: AgentDetailDefaults) -> (r: Result<
    AgentDetails,
    AgentDetailsError,
>)
    ensures
        given.id is None ==> r == Err::<AgentDetails, AgentDetailsError>(
            AgentDetailsError::IdRequired,
        ),
        given.id is Some && given.name is None ==> r == Err::<AgentDetails, AgentDetailsError>(
            AgentDetailsError::NameRequired,
        ),
        given.id is Some && given.name is Some ==> r == Ok::<AgentDetails, AgentDetailsError>(
            AgentDetails {
                id: given.id.unwrap(),
                name: given.name.unwrap(),
                description: given.description,
                category: given.category,
                engine: given.engine,
                model: given.model,
                reasoning: given.reasoning,
            },
        ),
{
    let AgentDetailDefaults { id, name, description, category, engine, model, reasoning } = given;
    let id = match id {
        Some(id) => id,
        None => {
            return Err(AgentDetailsError::IdRequired);
        },
    };
    let name = match name {
        Some(n) => n,
        None => {
            return Err(AgentDetailsError::NameRequired);
        },
    };
    Ok(AgentDetails { id, name, description, category, engine, model, reasoning })
}

/// Checks the id a new agent is to be created with, however its details
/// were settled: it must not be empty.
pub fn check_agent_id(id: &str) -> (r: Result<(), AgentDetailsError>)
    ensures
        id@.len() == 0 ==> r == Err::<(), AgentDetailsError>(AgentDetailsError::EmptyId),
        id@.len() > 0 ==> r is Ok,
{
    if chars_of(id).len() == 0 {
        Err(AgentDetailsError::EmptyId)
    } else {
        Ok(())
    }
}

/// Where a new agent's files go.
#[derive(Debug, Clone, PartialEq, Eq)]
pub struct AgentFilePaths {
    /// The directory of the agent's configuration.
    pub agent_dir: String,
    /// The directory of the agent's prompt.
    pub prompts_dir: String,
    /// The agent's configuration file.
    pub config_path: String,
    /// The agent's prompt file.
    pub prompt_path: String,
    /// The prompt file as the configuration names it.
    pub prompt_path_relative: String,
}

/// The category of a new agent: the one given, or `custom`.
pub open spec fn agent_category(category: Option<Seq<char>>) -> Seq<char> {
    match category {
        Some(c) => c,
        None => "custom"@,
    }
}

/// The directory of a new agent's configuration: the output directory
/// given, or `./agents`, joined with the category.
pub open spec fn agent_dir_of(category: Option<Seq<char>>, output_dir: Option<Seq<char>>) -> Seq<
    char,
> {
    paths::join_path(
        match output_dir {
            Some(d) => d,
            None => "./agents"@,
        },
        agent_category(category),
    )
}

/// The directory of a new agent's prompt: `./prompts/agents` joined with
/// the category.
pub open spec fn prompts_dir_of(category: Option<Seq<char>>) -> Seq<char> {
    paths::join_path("./prompts/agents"@, agent_category(category))
}

/// Where the files of a new agent with id `id` go: the configuration is
/// `<id>.toml` in the agent directory, the prompt `<id>.md` in the prompt
/// directory, and the configuration names the prompt
/// `prompts/agents/<category>/<id>.md`.
pub fn agent_file_paths(id: &str, category: Option<&str>, output_dir: Option<&str>) -> (r:
    AgentFilePaths)
    ensures
        r.agent_dir@ == agent_dir_of(template::opt_str(category), template::opt_str(output_dir)),
        r.prompts_dir@ == prompts_dir_of(template::opt_str(category)),
        r.config_path@ == paths::join_path(
            agent_dir_of(template::opt_str(category), template::opt_str(output_dir)),
            id@ + ".toml"@,
        ),
        r.prompt_path@ == paths::join_path(
            prompts_dir_of(template::opt_str(category)),
            id@ + ".md"@,
        ),
        r.prompt_path_relative@ == "prompts/agents/"@ + agent_category(
            template::opt_str(category),
        ) + "/"@ + id@ + ".md"@,
{
    let category = match category {
        Some(c) => c,
        None => "custom",
    };
    let base = match output_dir {
        Some(d) => d,
        None => "./agents",
    };
    let agent_dir = paths::join(base, category);
    let prompts_dir = paths::join("./prompts/agents", category);
    let mut config_file = chars_of(id);
    push_str(&mut config_file, ".toml");
    let config_file = string_from_chars(&config_file);
    let mut prompt_file = chars_of(id);
    push_str(&mut prompt_file, ".md");
    let prompt_file = string_from_chars(&prompt_file);
    let config_path = paths::join(agent_dir.as_str(), config_file.as_str());
    let prompt_path = paths::join(prompts_dir.as_str(), prompt_file.as_str());
    let mut relative = chars_of("prompts/agents/");
    push_str(&mut relative, category);
    push_str(&mut relative, "/");
    push_str(&mut relative, prompt_file.as_str());
    proof {
        assert(relative@ =~= "prompts/agents/"@ + category@ + "/"@ + id@ + ".md"@);
    }
    AgentFilePaths {
        agent_dir,
        prompts_dir,
        config_path,
        prompt_path,
        prompt_path_relative: string_from_chars(&relative),
    }
}

} // verus!
