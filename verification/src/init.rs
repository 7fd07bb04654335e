//! Sandbox options of workspace initialisation.
use vstd::prelude::*;
use crate::text;
use crate::text::str_to_lowercase;

verus! {

/// The kind of sandbox agents run in.
#[derive(Debug, Clone, Copy, PartialEq, Eq)]
pub enum SandboxType {
    /// No sandbox (`none`).
    Disabled,
    Docker,
    Podman,
    Seatbelt,
}

/// The network access of a sandbox.
#[derive(Debug, Clone, Copy, PartialEq, Eq)]
pub enum NetworkMode {
    Open,
    Closed,
    Proxied,
}

/// The sandbox type named by `s` in any case, if any.
pub open spec fn sandbox_named(s: Seq<char>) -> Option<SandboxType> {
    sandbox_of_lowered(text::lowercase(s))
}

/// The sandbox type named by an already lower-cased text, if any.
pub open spec fn sandbox_of_lowered(l: Seq<char>) -> Option<SandboxType> {
    if l == "none"@ {
        Some(SandboxType::Disabled)
    } else if l == "docker"@ {
        Some(SandboxType::Docker)
    } else if l == "podman"@ {
        Some(SandboxType::Podman)
    } else if l == "seatbelt"@ {
        Some(SandboxType::Seatbelt)
    } else {
        None
    }
}

/// The sandbox type of a `--sandbox` option (`none`, `docker`, `podman`,
/// `seatbelt`, in any case), and whether it was recognised; an unrecognised
/// type means no sandbox, with a warning.
pub fn parse_sandbox_type(s: &str) -> (r: (SandboxType, bool))
    ensures
        match sandbox_named(s@) {
            Some(t) => r == (t, true),
            None => r == (SandboxType::Disabled, false),
        },
{
    let l = str_to_lowercase(s);
    match sandbox_from_lowered(&l) {
        Some(t) => (t, true),
        None => (SandboxType::Disabled, false),
    }
}

/// The sandbox type an already lower-cased text names, if any.
pub fn sandbox_from_lowered(l: &String) -> (r: Option<SandboxType>)
    ensures
        r == sandbox_of_lowered(l@),
{
    if *l == String::from_str("none") {
        Some(SandboxType::Disabled)
    } else if *l == String::from_str("docker") {
        Some(SandboxType::Docker)
    } else if *l == String::from_str("podman") {
        Some(SandboxType::Podman)
    } else if *l == String::from_str("seatbelt") {
        Some(SandboxType::Seatbelt)
    } else {
        None
    }
}

/// The network mode named by `s` in any case, if any.
pub open spec fn network_named(s: Seq<char>) -> Option<NetworkMode> {
    network_of_lowered(text::lowercase(s))
}

/// The network mode named by an already lower-cased text, if any.
pub open spec fn network_of_lowered(l: Seq<char>) -> Option<NetworkMode> {
    if l == "open"@ {
        Some(NetworkMode::Open)
    } else if l == "closed"@ {
        Some(NetworkMode::Closed)
    } else if l == "proxied"@ {
        Some(NetworkMode::Proxied)
    } else {
        None
    }
}

/// The network mode of a `--sandbox-network` option (`open`, `closed`,
/// `proxied`, in any case; open when absent), and whether it was
/// recognised; an unrecognised mode means open, with a warning.
pub fn parse_network_mode(net: Option<&str>) -> (r: (NetworkMode, bool))
    ensures
        match net {
            None => r == (NetworkMode::Open, true),
            Some(n) => match network_named(n@) {
                Some(m) => r == (m, true),
                None => r == (NetworkMode::Open, false),
            },
        },
{
    match net {
        None => (NetworkMode::Open, true),
        Some(n) => {
            let l = str_to_lowercase(n);
            match network_from_lowered(&l) {
                Some(m) => (m, true),
                None => (NetworkMode::Open, false),
            }
        },
    }
}

/// The network mode an already lower-cased text names, if any.
pub fn network_from_lowered(l: &String) -> (r: Option<NetworkMode>)
    ensures
        r == network_of_lowered(l@),
{
    if *l == String::from_str("open") {
        Some(NetworkMode::Open)
    } else if *l == String::from_str("closed") {
        Some(NetworkMode::Closed)
    } else if *l == String::from_str("proxied") {
        Some(NetworkMode::Proxied)
    } else {
        None
    }
}

} // verus!
