//! Filter normalization: maps free-form user strings to canonical category
//! or status values, tolerant of case and of hyphens and underscores, via a
//! fixed alias table. A string outside the table is a structured error that
//! preserves the offending input.

use crate::model::{IntegrationCategory, IntegrationStatus};
use crate::text::{chars_eq_str, normalize_seq, normalize_str};
use vstd::prelude::*;

verus! {

/// Which filter an invalid input was meant for.
#[derive(Debug, Clone, Copy, PartialEq, Eq, Structural)]
pub enum FilterKind {
    Category,
    Status,
}

/// The error taxonomy of this crate. Every other condition, an empty
/// result set included, is a successful outcome.
#[derive(Debug, Clone)]
pub enum IntegrationsError {
    /// A category or status filter string failed normalization. Carries the
    /// original, unnormalized input.
    InvalidFilter { kind: FilterKind, input: String },
    /// No catalog entry's name matches the requested name case-insensitively.
    UnknownIntegration { input: String },
}

/// Canonical category value of a normalized token, per the alias table.
pub open spec fn spec_category_of(n: Seq<char>) -> Option<IntegrationCategory> {
    if n == "chat"@ || n == "chatproviders"@ || n == "messaging"@ {
        Some(IntegrationCategory::Chat)
    } else if n == "ai"@ || n == "aimodels"@ || n == "aimodel"@ || n == "models"@ || n == "llm"@
        || n == "llms"@ {
        Some(IntegrationCategory::AiModel)
    } else if n == "productivity"@ || n == "prod"@ {
        Some(IntegrationCategory::Productivity)
    } else if n == "music"@ || n == "musicaudio"@ || n == "audio"@ {
        Some(IntegrationCategory::MusicAudio)
    } else if n == "smarthome"@ || n == "home"@ || n == "iot"@ {
        Some(IntegrationCategory::SmartHome)
    } else if n == "tools"@ || n == "toolsautomation"@ || n == "automation"@ {
        Some(IntegrationCategory::ToolsAutomation)
    } else if n == "media"@ || n == "mediacreative"@ || n == "creative"@ {
        Some(IntegrationCategory::MediaCreative)
    } else if n == "social"@ {
        Some(IntegrationCategory::Social)
    } else if n == "platforms"@ || n == "platform"@ {
        Some(IntegrationCategory::Platform)
    } else {
        None
    }
}

/// Canonical status value of a normalized token, per the alias table.
pub open spec fn spec_status_of(n: Seq<char>) -> Option<IntegrationStatus> {
    if n == "active"@ || n == "enabled"@ || n == "on"@ {
        Some(IntegrationStatus::Active)
    } else if n == "available"@ || n == "ready"@ || n == "off"@ {
        Some(IntegrationStatus::Available)
    } else if n == "comingsoon"@ || n == "soon"@ || n == "planned"@ || n == "todo"@ {
        Some(IntegrationStatus::ComingSoon)
    } else {
        None
    }
}

/// Parses a category filter: the input is lowercased, stripped of hyphens
/// and underscores, and looked up in the alias table. Succeeds exactly on
/// the alias table's tokens; any other input is an `InvalidFilter` error
/// that preserves the original string.
pub fn parse_category_filter(input: &str) -> (r: Result<IntegrationCategory, IntegrationsError>)
    ensures
        match spec_category_of(normalize_seq(input@)) {
            Some(c) => r == Ok::<IntegrationCategory, IntegrationsError>(c),
            None => r matches Err(IntegrationsError::InvalidFilter { kind, input: orig })
                && kind == FilterKind::Category && orig@ == input@,
        },
{
    let v = normalize_str(input);
    if chars_eq_str(&v, "chat") || chars_eq_str(&v, "chatproviders") || chars_eq_str(
        &v,
        "messaging",
    ) {
        Ok(IntegrationCategory::Chat)
    } else if chars_eq_str(&v, "ai") || chars_eq_str(&v, "aimodels") || chars_eq_str(&v, "aimodel")
        || chars_eq_str(&v, "models") || chars_eq_str(&v, "llm") || chars_eq_str(&v, "llms") {
        Ok(IntegrationCategory::AiModel)
    } else if chars_eq_str(&v, "productivity") || chars_eq_str(&v, "prod") {
        Ok(IntegrationCategory::Productivity)
    } else if chars_eq_str(&v, "music") || chars_eq_str(&v, "musicaudio") || chars_eq_str(
        &v,
        "audio",
    ) {
        Ok(IntegrationCategory::MusicAudio)
    } else if chars_eq_str(&v, "smarthome") || chars_eq_str(&v, "home") || chars_eq_str(&v, "iot") {
        Ok(IntegrationCategory::SmartHome)
    } else if chars_eq_str(&v, "tools") || chars_eq_str(&v, "toolsautomation") || chars_eq_str(
        &v,
        "automation",
    ) {
        Ok(IntegrationCategory::ToolsAutomation)
    } else if chars_eq_str(&v, "media") || chars_eq_str(&v, "mediacreative") || chars_eq_str(
        &v,
        "creative",
    ) {
        Ok(IntegrationCategory::MediaCreative)
    } else if chars_eq_str(&v, "social") {
        Ok(IntegrationCategory::Social)
    } else if chars_eq_str(&v, "platforms") || chars_eq_str(&v, "platform") {
        Ok(IntegrationCategory::Platform)
    } else {
        Err(
            IntegrationsError::InvalidFilter {
                kind: FilterKind::Category,
                input: input.to_owned(),
            },
        )
    }
}

/// Parses a status filter, by the same normalization as the category
/// filter and the status alias table.
pub fn parse_status_filter(input: &str) -> (r: Result<IntegrationStatus, IntegrationsError>)
    ensures
        match spec_status_of(normalize_seq(input@)) {
            Some(s) => r == Ok::<IntegrationStatus, IntegrationsError>(s),
            None => r matches Err(IntegrationsError::InvalidFilter { kind, input: orig })
                && kind == FilterKind::Status && orig@ == input@,
        },
{
    let v = normalize_str(input);
    if chars_eq_str(&v, "active") || chars_eq_str(&v, "enabled") || chars_eq_str(&v, "on") {
        Ok(IntegrationStatus::Active)
    } else if chars_eq_str(&v, "available") || chars_eq_str(&v, "ready") || chars_eq_str(
        &v,
        "off",
    ) {
        Ok(IntegrationStatus::Available)
    } else if chars_eq_str(&v, "comingsoon") || chars_eq_str(&v, "soon") || chars_eq_str(
        &v,
        "planned",
    ) || chars_eq_str(&v, "todo") {
        Ok(IntegrationStatus::ComingSoon)
    } else {
        Err(IntegrationsError::InvalidFilter { kind: FilterKind::Status, input: input.to_owned() })
    }
}

/// The canonical category tokens shown to the user beside an invalid
/// category filter.
pub fn valid_category_tokens() -> (r: Vec<&'static str>)
    ensures
        r@.len() == 9,
        r@[0]@ == "chat"@,
        r@[1]@ == "ai"@,
        r@[2]@ == "productivity"@,
        r@[3]@ == "music"@,
        r@[4]@ == "smart-home"@,
        r@[5]@ == "tools"@,
        r@[6]@ == "media"@,
        r@[7]@ == "social"@,
        r@[8]@ == "platforms"@,
{
    let mut v: Vec<&'static str> = Vec::new();
    v.push("chat");
    v.push("ai");
    v.push("productivity");
    v.push("music");
    v.push("smart-home");
    v.push("tools");
    v.push("media");
    v.push("social");
    v.push("platforms");
    v
}

/// The canonical status tokens shown to the user beside an invalid status
/// filter.
pub fn valid_status_tokens() -> (r: Vec<&'static str>)
    ensures
        r@.len() == 3,
        r@[0]@ == "active"@,
        r@[1]@ == "available"@,
        r@[2]@ == "coming-soon"@,
{
    let mut v: Vec<&'static str> = Vec::new();
    v.push("active");
    v.push("available");
    v.push("coming-soon");
    v
}

/// The user-facing message of an error.
pub open spec fn spec_error_message(e: IntegrationsError) -> Seq<char> {
    match e {
        IntegrationsError::InvalidFilter { kind: FilterKind::Category, input } =>
            "Unknown category: '"@ + input@
            + "'. Valid options: chat, ai, productivity, music, smart-home, tools, media, social, platforms"@,
        IntegrationsError::InvalidFilter { kind: FilterKind::Status, input } =>
            "Unknown status: '"@ + input@ + "'. Valid options: active, available, coming-soon"@,
        IntegrationsError::UnknownIntegration { input } => "Unknown integration: "@ + input@
            + ". Check README for supported integrations or run `zeroclaw onboard --interactive` to configure channels/providers."@,
    }
}

impl IntegrationsError {
    /// The closed set of valid canonical tokens an invalid filter is
    /// reported against; an unknown-integration error carries none.
    pub fn valid_options(&self) -> (r: Option<Vec<&'static str>>)
        ensures
            match *self {
                IntegrationsError::InvalidFilter { kind: FilterKind::Category, .. } => r
                    matches Some(v) && v@.len() == 9 && v@[0]@ == "chat"@ && v@[1]@ == "ai"@
                    && v@[2]@ == "productivity"@ && v@[3]@ == "music"@ && v@[4]@ == "smart-home"@
                    && v@[5]@ == "tools"@ && v@[6]@ == "media"@ && v@[7]@ == "social"@ && v@[8]@
                    == "platforms"@,
                IntegrationsError::InvalidFilter { kind: FilterKind::Status, .. } => r
                    matches Some(v) && v@.len() == 3 && v@[0]@ == "active"@ && v@[1]@
                    == "available"@ && v@[2]@ == "coming-soon"@,
                IntegrationsError::UnknownIntegration { .. } => r is None,
            },
    {
        match self {
            IntegrationsError::InvalidFilter { kind: FilterKind::Category, .. } => Some(
                valid_category_tokens(),
            ),
            IntegrationsError::InvalidFilter { kind: FilterKind::Status, .. } => Some(
                valid_status_tokens(),
            ),
            IntegrationsError::UnknownIntegration { .. } => None,
        }
    }

    /// Renders the error as the user-facing message: the offending input,
    /// and for a filter error the closed set of valid canonical tokens.
    pub fn message(&self) -> (r: String)
        ensures
            r@ == spec_error_message(*self),
    {
        match self {
            IntegrationsError::InvalidFilter { kind: FilterKind::Category, input } => {
                let mut s = String::new();
                s.append("Unknown category: '");
                s.append(input.as_str());
                s.append(
                    "'. Valid options: chat, ai, productivity, music, smart-home, tools, media, social, platforms",
                );
                proof {
                    assert(s@ =~= spec_error_message(*self));
                }
                s
            },
            IntegrationsError::InvalidFilter { kind: FilterKind::Status, input } => {
                let mut s = String::new();
                s.append("Unknown status: '");
                s.append(input.as_str());
                s.append("'. Valid options: active, available, coming-soon");
                proof {
                    assert(s@ =~= spec_error_message(*self));
                }
                s
            },
            IntegrationsError::UnknownIntegration { input } => {
                let mut s = String::new();
                s.append("Unknown integration: ");
                s.append(input.as_str());
                s.append(
                    ". Check README for supported integrations or run `zeroclaw onboard --interactive` to configure channels/providers.",
                );
                proof {
                    assert(s@ =~= spec_error_message(*self));
                }
                s
            },
        }
    }
}

} // verus!
