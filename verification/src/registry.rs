//! The catalog: a fixed, ordered collection of integration entries. It is
//! rebuilt identically on every call and never mutated, so repeated calls
//! observe the same entries in the same order.

use crate::model::{IntegrationCategory, StatusRule};
use vstd::prelude::*;

verus! {

/// One integration the host application can connect to.
#[derive(Debug, Clone, Copy)]
pub struct IntegrationEntry {
    pub name: &'static str,
    pub description: &'static str,
    pub category: IntegrationCategory,
    pub status_rule: StatusRule,
}

/// Mathematical model of an entry: its strings as character sequences.
pub ghost struct EntryModel {
    pub name: Seq<char>,
    pub description: Seq<char>,
    pub category: IntegrationCategory,
    pub status_rule: StatusRule,
}

impl View for IntegrationEntry {
    type V = EntryModel;

    open spec fn view(&self) -> EntryModel {
        EntryModel {
            name: self.name@,
            description: self.description@,
            category: self.category,
            status_rule: self.status_rule,
        }
    }
}

/// The models of a sequence of entries.
pub open spec fn views_of(s: Seq<IntegrationEntry>) -> Seq<EntryModel> {
    Seq::new(s.len(), |i: int| s[i]@)
}

/// The catalog, in declaration order.
pub open spec fn catalog() -> Seq<EntryModel> {
    seq![
        EntryModel {
            name: "Telegram"@,
            description: "Chat with your agent over Telegram"@,
            category: IntegrationCategory::Chat,
            status_rule: StatusRule::TelegramChannel,
        },
        EntryModel {
            name: "Discord"@,
            description: "Bot account on your Discord server"@,
            category: IntegrationCategory::Chat,
            status_rule: StatusRule::DiscordChannel,
        },
        EntryModel {
            name: "Slack"@,
            description: "Workspace bot for Slack channels"@,
            category: IntegrationCategory::Chat,
            status_rule: StatusRule::SlackChannel,
        },
        EntryModel {
            name: "iMessage"@,
            description: "AppleScript bridge for iMessage on macOS"@,
            category: IntegrationCategory::Chat,
            status_rule: StatusRule::IMessageChannel,
        },
        EntryModel {
            name: "WhatsApp"@,
            description: "Messaging over the WhatsApp Business API"@,
            category: IntegrationCategory::Chat,
            status_rule: StatusRule::Planned,
        },
        EntryModel {
            name: "OpenRouter"@,
            description: "Hundreds of hosted models with one API key"@,
            category: IntegrationCategory::AiModel,
            status_rule: StatusRule::OpenRouterProvider,
        },
        EntryModel {
            name: "Ollama"@,
            description: "Local models served by Ollama"@,
            category: IntegrationCategory::AiModel,
            status_rule: StatusRule::OllamaProvider,
        },
        EntryModel {
            name: "GitHub"@,
            description: "Issues, pull requests and repository tasks"@,
            category: IntegrationCategory::Productivity,
            status_rule: StatusRule::GithubToken,
        },
        EntryModel {
            name: "Notion"@,
            description: "Pages and databases in your Notion workspace"@,
            category: IntegrationCategory::Productivity,
            status_rule: StatusRule::Planned,
        },
        EntryModel {
            name: "Spotify"@,
            description: "Playback control and playlists on Spotify"@,
            category: IntegrationCategory::MusicAudio,
            status_rule: StatusRule::Planned,
        },
        EntryModel {
            name: "Home Assistant"@,
            description: "Lights, sensors and scenes via Home Assistant"@,
            category: IntegrationCategory::SmartHome,
            status_rule: StatusRule::Planned,
        },
        EntryModel {
            name: "Browser"@,
            description: "Headless browser automation for web tasks"@,
            category: IntegrationCategory::ToolsAutomation,
            status_rule: StatusRule::Builtin,
        },
        EntryModel {
            name: "Cron"@,
            description: "Scheduled tasks from the local workspace"@,
            category: IntegrationCategory::ToolsAutomation,
            status_rule: StatusRule::Builtin,
        },
        EntryModel {
            name: "Webhooks"@,
            description: "HTTP endpoint for external triggers"@,
            category: IntegrationCategory::ToolsAutomation,
            status_rule: StatusRule::Builtin,
        },
        EntryModel {
            name: "ComfyUI"@,
            description: "Image generation through a ComfyUI workflow"@,
            category: IntegrationCategory::MediaCreative,
            status_rule: StatusRule::Planned,
        },
        EntryModel {
            name: "Mastodon"@,
            description: "Posting and mentions on the fediverse"@,
            category: IntegrationCategory::Social,
            status_rule: StatusRule::Planned,
        },
        EntryModel {
            name: "Matrix"@,
            description: "Rooms and direct chats on a Matrix homeserver"@,
            category: IntegrationCategory::Platform,
            status_rule: StatusRule::Planned,
        },
    ]
}

/// Every integration the host application knows of, in declaration order.
/// Repeated calls return entries of equal identity and order.
pub fn all_integrations() -> (r: Vec<IntegrationEntry>)
    ensures
        views_of(r@) == catalog(),
{
    let mut v: Vec<IntegrationEntry> = Vec::new();
    v.push(IntegrationEntry {
        name: "Telegram",
        description: "Chat with your agent over Telegram",
        category: IntegrationCategory::Chat,
        status_rule: StatusRule::TelegramChannel,
    });
    v.push(IntegrationEntry {
        name: "Discord",
        description: "Bot account on your Discord server",
        category: IntegrationCategory::Chat,
        status_rule: StatusRule::DiscordChannel,
    });
    v.push(IntegrationEntry {
        name: "Slack",
        description: "Workspace bot for Slack channels",
        category: IntegrationCategory::Chat,
        status_rule: StatusRule::SlackChannel,
    });
    v.push(IntegrationEntry {
        name: "iMessage",
        description: "AppleScript bridge for iMessage on macOS",
        category: IntegrationCategory::Chat,
        status_rule: StatusRule::IMessageChannel,
    });
    v.push(IntegrationEntry {
        name: "WhatsApp",
        description: "Messaging over the WhatsApp Business API",
        category: IntegrationCategory::Chat,
        status_rule: StatusRule::Planned,
    });
    v.push(IntegrationEntry {
        name: "OpenRouter",
        description: "Hundreds of hosted models with one API key",
        category: IntegrationCategory::AiModel,
        status_rule: StatusRule::OpenRouterProvider,
    });
    v.push(IntegrationEntry {
        name: "Ollama",
        description: "Local models served by Ollama",
        category: IntegrationCategory::AiModel,
        status_rule: StatusRule::OllamaProvider,
    });
    v.push(IntegrationEntry {
        name: "GitHub",
        description: "Issues, pull requests and repository tasks",
        category: IntegrationCategory::Productivity,
        status_rule: StatusRule::GithubToken,
    });
    v.push(IntegrationEntry {
        name: "Notion",
        description: "Pages and databases in your Notion workspace",
        category: IntegrationCategory::Productivity,
        status_rule: StatusRule::Planned,
    });
    v.push(IntegrationEntry {
        name: "Spotify",
        description: "Playback control and playlists on Spotify",
        category: IntegrationCategory::MusicAudio,
        status_rule: StatusRule::Planned,
    });
    v.push(IntegrationEntry {
        name: "Home Assistant",
        description: "Lights, sensors and scenes via Home Assistant",
        category: IntegrationCategory::SmartHome,
        status_rule: StatusRule::Planned,
    });
    v.push(IntegrationEntry {
        name: "Browser",
        description: "Headless browser automation for web tasks",
        category: IntegrationCategory::ToolsAutomation,
        status_rule: StatusRule::Builtin,
    });
    v.push(IntegrationEntry {
        name: "Cron",
        description: "Scheduled tasks from the local workspace",
        category: IntegrationCategory::ToolsAutomation,
        status_rule: StatusRule::Builtin,
    });
    v.push(IntegrationEntry {
        name: "Webhooks",
        description: "HTTP endpoint for external triggers",
        category: IntegrationCategory::ToolsAutomation,
        status_rule: StatusRule::Builtin,
    });
    v.push(IntegrationEntry {
        name: "ComfyUI",
        description: "Image generation through a ComfyUI workflow",
        category: IntegrationCategory::MediaCreative,
        status_rule: StatusRule::Planned,
    });
    v.push(IntegrationEntry {
        name: "Mastodon",
        description: "Posting and mentions on the fediverse",
        category: IntegrationCategory::Social,
        status_rule: StatusRule::Planned,
    });
    v.push(IntegrationEntry {
        name: "Matrix",
        description: "Rooms and direct chats on a Matrix homeserver",
        category: IntegrationCategory::Platform,
        status_rule: StatusRule::Planned,
    });
    proof {
        assert(views_of(v@) =~= catalog());
    }
    v
}

/// The catalog is a constant of the process: any two reads that meet
/// `all_integrations`'s contract hold entries of equal identity, in equal
/// order; and status evaluation is a pure function of rule and
/// configuration, so repeated evaluation under an unchanged configuration
/// yields the same status.
pub proof fn lemma_catalog_reads_agree(a: Seq<IntegrationEntry>, b: Seq<IntegrationEntry>)
    requires
        views_of(a) == catalog(),
        views_of(b) == catalog(),
    ensures
        views_of(a) == views_of(b),
        a.len() == b.len(),
{
    assert(views_of(a).len() == a.len());
    assert(views_of(b).len() == b.len());
}

} // verus!
