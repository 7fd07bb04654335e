//! The hook types: those `hooks list --type` accepts, and the order in
//! which the hooks of each are listed.
use vstd::prelude::*;

verus! {

/// The point in agent execution a hook runs at.
#[derive(Debug, Clone, Copy, PartialEq, Eq)]
pub enum HookType {
    BeforeModel,
    AfterModel,
    BeforeTool,
    AfterTool,
    ToolSelection,
    ErrorInterception,
    ErrorTransformation,
    ErrorRecovery,
    ErrorLogging,
    TelemetryCollection,
    CustomLogging,
    MetricsAggregation,
    PerformanceMonitoring,
}

/// The hook type with this exact (snake case) name, if any.
pub open spec fn hook_type_named(s: Seq<char>) -> Option<HookType> {
    if s == "before_model"@ {
        Some(HookType::BeforeModel)
    } else if s == "after_model"@ {
        Some(HookType::AfterModel)
    } else if s == "before_tool"@ {
        Some(HookType::BeforeTool)
    } else if s == "after_tool"@ {
        Some(HookType::AfterTool)
    } else if s == "tool_selection"@ {
        Some(HookType::ToolSelection)
    } else if s == "error_interception"@ {
        Some(HookType::ErrorInterception)
    } else if s == "error_transformation"@ {
        Some(HookType::ErrorTransformation)
    } else if s == "error_recovery"@ {
        Some(HookType::ErrorRecovery)
    } else if s == "error_logging"@ {
        Some(HookType::ErrorLogging)
    } else if s == "telemetry_collection"@ {
        Some(HookType::TelemetryCollection)
    } else if s == "custom_logging"@ {
        Some(HookType::CustomLogging)
    } else if s == "metrics_aggregation"@ {
        Some(HookType::MetricsAggregation)
    } else if s == "performance_monitoring"@ {
        Some(HookType::PerformanceMonitoring)
    } else {
        None
    }
}

/// The hook type a `--type` filter names (exactly, in snake case); `None`
/// when it names none.
pub fn parse_hook_type(s: &str) -> (r: Option<HookType>)
    ensures
        r == hook_type_named(s@),
{
    let t = String::from_str(s);
    if t == String::from_str("before_model") {
        Some(HookType::BeforeModel)
    } else if t == String::from_str("after_model") {
        Some(HookType::AfterModel)
    } else if t == String::from_str("before_tool") {
        Some(HookType::BeforeTool)
    } else if t == String::from_str("after_tool") {
        Some(HookType::AfterTool)
    } else if t == String::from_str("tool_selection") {
        Some(HookType::ToolSelection)
    } else if t == String::from_str("error_interception") {
        Some(HookType::ErrorInterception)
    } else if t == String::from_str("error_transformation") {
        Some(HookType::ErrorTransformation)
    } else if t == String::from_str("error_recovery") {
        Some(HookType::ErrorRecovery)
    } else if t == String::from_str("error_logging") {
        Some(HookType::ErrorLogging)
    } else if t == String::from_str("telemetry_collection") {
        Some(HookType::TelemetryCollection)
    } else if t == String::from_str("custom_logging") {
        Some(HookType::CustomLogging)
    } else if t == String::from_str("metrics_aggregation") {
        Some(HookType::MetricsAggregation)
    } else if t == String::from_str("performance_monitoring") {
        Some(HookType::PerformanceMonitoring)
    } else {
        None
    }
}

/// Every hook type, in the order `hooks list` and `hooks info` search them.
pub open spec fn hook_type_order() -> Seq<HookType> {
    seq![
        HookType::BeforeModel,
        HookType::AfterModel,
        HookType::BeforeTool,
        HookType::AfterTool,
        HookType::ToolSelection,
        HookType::ErrorInterception,
        HookType::ErrorTransformation,
        HookType::ErrorRecovery,
        HookType::ErrorLogging,
        HookType::TelemetryCollection,
        HookType::CustomLogging,
        HookType::MetricsAggregation,
        HookType::PerformanceMonitoring,
    ]
}

/// Every hook type, in the order the hooks are listed and searched.
pub fn all_hook_types() -> (r: Vec<HookType>)
    ensures
        r@ == hook_type_order(),
{
    let r = vec![
        HookType::BeforeModel,
        HookType::AfterModel,
        HookType::BeforeTool,
        HookType::AfterTool,
        HookType::ToolSelection,
        HookType::ErrorInterception,
        HookType::ErrorTransformation,
        HookType::ErrorRecovery,
        HookType::ErrorLogging,
        HookType::TelemetryCollection,
        HookType::CustomLogging,
        HookType::MetricsAggregation,
        HookType::PerformanceMonitoring,
    ];
    assert(r@ =~= hook_type_order());
    r
}

} // verus!
