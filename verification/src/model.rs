//! Core data model: integration statuses, categories, status-evaluation
//! rules, and the configuration snapshot that status evaluation reads.

use vstd::prelude::*;

verus! {

/// Activation status of an integration, computed from a configuration
/// snapshot. Never stored; always derived.
#[derive(Debug, Clone, Copy, PartialEq, Eq, Structural)]
pub enum IntegrationStatus {
    /// Fully implemented and ready to use
    Available,
    /// Configured and active
    Active,
    /// Planned but not yet implemented
    ComingSoon,
}

/// Category of an integration. The declaration order here is the fixed
/// enumeration order used for grouping query results.
#[derive(Debug, Clone, Copy, PartialEq, Eq, Structural)]
pub enum IntegrationCategory {
    Chat,
    AiModel,
    Productivity,
    MusicAudio,
    SmartHome,
    ToolsAutomation,
    MediaCreative,
    Social,
    Platform,
}

/// Position of a category in the fixed enumeration order.
pub open spec fn category_index(c: IntegrationCategory) -> int {
    match c {
        IntegrationCategory::Chat => 0,
        IntegrationCategory::AiModel => 1,
        IntegrationCategory::Productivity => 2,
        IntegrationCategory::MusicAudio => 3,
        IntegrationCategory::SmartHome => 4,
        IntegrationCategory::ToolsAutomation => 5,
        IntegrationCategory::MediaCreative => 6,
        IntegrationCategory::Social => 7,
        IntegrationCategory::Platform => 8,
    }
}

/// The nine categories in fixed enumeration order.
pub open spec fn spec_all_categories() -> Seq<IntegrationCategory> {
    seq![
        IntegrationCategory::Chat,
        IntegrationCategory::AiModel,
        IntegrationCategory::Productivity,
        IntegrationCategory::MusicAudio,
        IntegrationCategory::SmartHome,
        IntegrationCategory::ToolsAutomation,
        IntegrationCategory::MediaCreative,
        IntegrationCategory::Social,
        IntegrationCategory::Platform,
    ]
}

impl IntegrationCategory {
    /// Stable display label of the category.
    pub fn label(self) -> (r: &'static str)
        ensures
            r@ == spec_label(self),
    {
        match self {
            Self::Chat => "Chat Providers",
            Self::AiModel => "AI Models",
            Self::Productivity => "Productivity",
            Self::MusicAudio => "Music & Audio",
            Self::SmartHome => "Smart Home",
            Self::ToolsAutomation => "Tools & Automation",
            Self::MediaCreative => "Media & Creative",
            Self::Social => "Social",
            Self::Platform => "Platforms",
        }
    }

    /// Every category, once, in the fixed enumeration order.
    pub fn all() -> (r: Vec<Self>)
        ensures
            r@ == spec_all_categories(),
    {
        let mut v: Vec<Self> = Vec::new();
        v.push(Self::Chat);
        v.push(Self::AiModel);
        v.push(Self::Productivity);
        v.push(Self::MusicAudio);
        v.push(Self::SmartHome);
        v.push(Self::ToolsAutomation);
        v.push(Self::MediaCreative);
        v.push(Self::Social);
        v.push(Self::Platform);
        proof {
            assert(v@ =~= spec_all_categories());
        }
        v
    }
}

/// Status-evaluation strategy of a catalog entry. The strategy set is
/// closed and known at build time, so a plain enum dispatch stands in for
/// a function-valued field.
#[derive(Debug, Clone, Copy, PartialEq, Eq, Structural)]
pub enum StatusRule {
    /// Active once the Telegram channel is configured, otherwise available.
    TelegramChannel,
    /// Active once the Discord channel is configured, otherwise available.
    DiscordChannel,
    /// Active once the Slack channel is configured, otherwise available.
    SlackChannel,
    /// Active once the iMessage bridge is configured, otherwise available.
    IMessageChannel,
    /// Active once a GitHub token is configured, otherwise available.
    GithubToken,
    /// Active once OpenRouter is the configured model provider.
    OpenRouterProvider,
    /// Active once Ollama is the configured model provider.
    OllamaProvider,
    /// Ships with the host application and is always active.
    Builtin,
    /// Planned but not yet implemented, whatever the configuration says.
    Planned,
}

/// Snapshot of the runtime configuration, reduced to the facts status
/// evaluation reads: which channels and providers are configured.
#[derive(Debug, Clone, Copy, PartialEq, Eq, Structural)]
pub struct Config {
    pub telegram_configured: bool,
    pub discord_configured: bool,
    pub slack_configured: bool,
    pub imessage_configured: bool,
    pub github_configured: bool,
    pub openrouter_configured: bool,
    pub ollama_configured: bool,
}

impl Default for Config {
    /// A configuration with nothing configured.
    fn default() -> (r: Self)
        ensures
            r == spec_default_config(),
    {
        Config {
            telegram_configured: false,
            discord_configured: false,
            slack_configured: false,
            imessage_configured: false,
            github_configured: false,
            openrouter_configured: false,
            ollama_configured: false,
        }
    }
}

/// The configuration with nothing configured.
pub open spec fn spec_default_config() -> Config {
    Config {
        telegram_configured: false,
        discord_configured: false,
        slack_configured: false,
        imessage_configured: false,
        github_configured: false,
        openrouter_configured: false,
        ollama_configured: false,
    }
}

/// Status of an entry under a configuration: a pure function of the
/// entry's rule and the configuration snapshot.
pub open spec fn spec_status(rule: StatusRule, c: Config) -> IntegrationStatus {
    match rule {
        StatusRule::TelegramChannel => if c.telegram_configured {
            IntegrationStatus::Active
        } else {
            IntegrationStatus::Available
        },
        StatusRule::DiscordChannel => if c.discord_configured {
            IntegrationStatus::Active
        } else {
            IntegrationStatus::Available
        },
        StatusRule::SlackChannel => if c.slack_configured {
            IntegrationStatus::Active
        } else {
            IntegrationStatus::Available
        },
        StatusRule::IMessageChannel => if c.imessage_configured {
            IntegrationStatus::Active
        } else {
            IntegrationStatus::Available
        },
        StatusRule::GithubToken => if c.github_configured {
            IntegrationStatus::Active
        } else {
            IntegrationStatus::Available
        },
        StatusRule::OpenRouterProvider => if c.openrouter_configured {
            IntegrationStatus::Active
        } else {
            IntegrationStatus::Available
        },
        StatusRule::OllamaProvider => if c.ollama_configured {
            IntegrationStatus::Active
        } else {
            IntegrationStatus::Available
        },
        StatusRule::Builtin => IntegrationStatus::Active,
        StatusRule::Planned => IntegrationStatus::ComingSoon,
    }
}

/// Evaluates an entry's status against a configuration snapshot.
pub fn eval_status(rule: StatusRule, config: &Config) -> (r: IntegrationStatus)
    ensures
        r == spec_status(rule, *config),
{
    match rule {
        StatusRule::TelegramChannel => if config.telegram_configured {
            IntegrationStatus::Active
        } else {
            IntegrationStatus::Available
        },
        StatusRule::DiscordChannel => if config.discord_configured {
            IntegrationStatus::Active
        } else {
            IntegrationStatus::Available
        },
        StatusRule::SlackChannel => if config.slack_configured {
            IntegrationStatus::Active
        } else {
            IntegrationStatus::Available
        },
        StatusRule::IMessageChannel => if config.imessage_configured {
            IntegrationStatus::Active
        } else {
            IntegrationStatus::Available
        },
        StatusRule::GithubToken => if config.github_configured {
            IntegrationStatus::Active
        } else {
            IntegrationStatus::Available
        },
        StatusRule::OpenRouterProvider => if config.openrouter_configured {
            IntegrationStatus::Active
        } else {
            IntegrationStatus::Available
        },
        StatusRule::OllamaProvider => if config.ollama_configured {
            IntegrationStatus::Active
        } else {
            IntegrationStatus::Available
        },
        StatusRule::Builtin => IntegrationStatus::Active,
        StatusRule::Planned => IntegrationStatus::ComingSoon,
    }
}

/// Status icon and label used by the presentation layer.
pub fn status_icon(status: IntegrationStatus) -> (r: (&'static str, &'static str))
    ensures
        r.0@ == spec_status_icon(status),
        r.1@ == spec_status_label(status),
{
    match status {
        IntegrationStatus::Active => ("\u{2705}", "Active"),
        IntegrationStatus::Available => ("\u{26aa}", "Available"),
        IntegrationStatus::ComingSoon => ("\u{1f51c}", "Coming Soon"),
    }
}

/// Icon of a status.
pub open spec fn spec_status_icon(status: IntegrationStatus) -> Seq<char> {
    match status {
        IntegrationStatus::Active => "\u{2705}"@,
        IntegrationStatus::Available => "\u{26aa}"@,
        IntegrationStatus::ComingSoon => "\u{1f51c}"@,
    }
}

/// Display label of a status.
pub open spec fn spec_status_label(status: IntegrationStatus) -> Seq<char> {
    match status {
        IntegrationStatus::Active => "Active"@,
        IntegrationStatus::Available => "Available"@,
        IntegrationStatus::ComingSoon => "Coming Soon"@,
    }
}

/// Display label of a category, as a sequence of characters.
pub open spec fn spec_label(c: IntegrationCategory) -> Seq<char> {
    match c {
        IntegrationCategory::Chat => "Chat Providers"@,
        IntegrationCategory::AiModel => "AI Models"@,
        IntegrationCategory::Productivity => "Productivity"@,
        IntegrationCategory::MusicAudio => "Music & Audio"@,
        IntegrationCategory::SmartHome => "Smart Home"@,
        IntegrationCategory::ToolsAutomation => "Tools & Automation"@,
        IntegrationCategory::MediaCreative => "Media & Creative"@,
        IntegrationCategory::Social => "Social"@,
        IntegrationCategory::Platform => "Platforms"@,
    }
}

} // verus!
