//! The capability sets an agent may ask to be elevated to.
use vstd::prelude::*;

verus! {

/// The class of model an agent may use.
#[derive(Debug, Clone, Copy, PartialEq, Eq)]
pub enum ModelClass {
    Fast,
    Balanced,
    Reasoning,
}

/// The cost tier an agent may spend in.
#[derive(Debug, Clone, Copy, PartialEq, Eq)]
pub enum CostTier {
    Low,
    Medium,
    High,
}

/// What an agent may do.
#[derive(Debug, Clone, Copy, PartialEq, Eq)]
pub struct AgentCapabilities {
    pub model_class: ModelClass,
    pub cost_tier: CostTier,
    pub max_concurrent_tasks: u32,
}

/// The capability named is not `write`, `network` or `admin`.
#[derive(Debug, Clone, PartialEq, Eq)]
pub struct UnknownCapability(pub String);

/// The capability set requested by name: `write` (balanced model, medium
/// cost, 5 tasks), `network` (fast model, low cost, 10 tasks) or `admin`
/// (reasoning model, high cost, 3 tasks).
pub open spec fn capabilities_named(s: Seq<char>) -> Option<AgentCapabilities> {
    if s == "write"@ {
        Some(
            AgentCapabilities {
                model_class: ModelClass::Balanced,
                cost_tier: CostTier::Medium,
                max_concurrent_tasks: 5,
            },
        )
    } else if s == "network"@ {
        Some(
            AgentCapabilities {
                model_class: ModelClass::Fast,
                cost_tier: CostTier::Low,
                max_concurrent_tasks: 10,
            },
        )
    } else if s == "admin"@ {
        Some(
            AgentCapabilities {
                model_class: ModelClass::Reasoning,
                cost_tier: CostTier::High,
                max_concurrent_tasks: 3,
            },
        )
    } else {
        None
    }
}

/// The capability set an elevation request asks for.
pub fn requested_capabilities(capability: &str) -> (r: Result<AgentCapabilities, UnknownCapability>)
    ensures
        match capabilities_named(capability@) {
            Some(c) => r == Ok::<AgentCapabilities, UnknownCapability>(c),
            None => r matches Err(UnknownCapability(t)) && t@ == capability@,
        },
{
    let c = String::from_str(capability);
    if c == String::from_str("write") {
        Ok(
            AgentCapabilities {
                model_class: ModelClass::Balanced,
                cost_tier: CostTier::Medium,
                max_concurrent_tasks: 5,
            },
        )
    } else if c == String::from_str("network") {
        Ok(
            AgentCapabilities {
                model_class: ModelClass::Fast,
                cost_tier: CostTier::Low,
                max_concurrent_tasks: 10,
            },
        )
    } else if c == String::from_str("admin") {
        Ok(
            AgentCapabilities {
                model_class: ModelClass::Reasoning,
                cost_tier: CostTier::High,
                max_concurrent_tasks: 3,
            },
        )
    } else {
        Err(UnknownCapability(String::from_str(capability)))
    }
}

impl UnknownCapability {
    /// The message shown for the error.
    pub fn message(&self) -> (r: String)
        ensures
            r@ == "Unknown capability: "@ + self.0@ + ". Valid options: write, network, admin"@,
    {
        let mut m = crate::text::chars_of("Unknown capability: ");
        crate::text::push_str(&mut m, self.0.as_str());
        crate::text::push_str(&mut m, ". Valid options: write, network, admin");
        crate::text::string_from_chars(&m)
    }
}

} // verus!
