use zeroclaw_integrations::filters::{
    parse_category_filter, parse_status_filter, FilterKind, IntegrationsError,
};
use zeroclaw_integrations::model::{
    eval_status, status_icon, Config, IntegrationCategory, IntegrationStatus,
};
use zeroclaw_integrations::query::{
    list_integrations, search_integrations, show_integration_info,
};
use zeroclaw_integrations::registry::all_integrations;

#[test]
fn normalization_ignores_case_and_separators() {
    assert!(matches!(
        parse_category_filter("smart-home"),
        Ok(IntegrationCategory::SmartHome)
    ));
    assert!(matches!(
        parse_category_filter("smarthome"),
        Ok(IntegrationCategory::SmartHome)
    ));
    assert!(matches!(
        parse_category_filter("SMART_HOME"),
        Ok(IntegrationCategory::SmartHome)
    ));
    assert!(matches!(
        parse_status_filter("Coming_Soon"),
        Ok(IntegrationStatus::ComingSoon)
    ));
    assert!(matches!(
        parse_category_filter("chat-providers"),
        Ok(IntegrationCategory::Chat)
    ));
    assert!(matches!(
        parse_category_filter("LLMs"),
        Ok(IntegrationCategory::AiModel)
    ));
}

#[test]
fn invalid_filter_preserves_original_input() {
    match parse_category_filter("bogus") {
        Err(IntegrationsError::InvalidFilter { kind, input }) => {
            assert!(matches!(kind, FilterKind::Category));
            assert_eq!(input, "bogus");
        }
        _ => panic!("expected an invalid-filter error"),
    }
    match parse_status_filter("Mysterious-Status") {
        Err(IntegrationsError::InvalidFilter { kind, input }) => {
            assert!(matches!(kind, FilterKind::Status));
            assert_eq!(input, "Mysterious-Status");
        }
        _ => panic!("expected an invalid-filter error"),
    }
}

#[test]
fn list_without_filters_covers_catalog_once_in_order() {
    let config = Config::default();
    let groups = list_integrations(&config, None, None).unwrap();
    let catalog = all_integrations();

    let mut seen: Vec<&str> = Vec::new();
    for group in &groups {
        for le in &group.entries {
            assert_eq!(le.entry.category, group.category);
            seen.push(le.entry.name);
        }
    }
    assert_eq!(seen.len(), catalog.len());
    for entry in &catalog {
        assert_eq!(seen.iter().filter(|n| **n == entry.name).count(), 1);
    }

    // groups come in the fixed enumeration order
    let order = IntegrationCategory::all();
    let positions: Vec<usize> = groups
        .iter()
        .map(|g| order.iter().position(|k| *k == g.category).unwrap())
        .collect();
    for w in positions.windows(2) {
        assert!(w[0] < w[1]);
    }

    // within a group, catalog declaration order is preserved
    for group in &groups {
        let catalog_positions: Vec<usize> = group
            .entries
            .iter()
            .map(|le| catalog.iter().position(|e| e.name == le.entry.name).unwrap())
            .collect();
        for w in catalog_positions.windows(2) {
            assert!(w[0] < w[1]);
        }
    }
}

#[test]
fn list_filters_are_a_logical_and() {
    let mut config = Config::default();
    config.telegram_configured = true;

    let by_category = list_integrations(&config, Some("chat"), None).unwrap();
    for group in &by_category {
        assert_eq!(group.category, IntegrationCategory::Chat);
        for le in &group.entries {
            assert_eq!(le.entry.category, IntegrationCategory::Chat);
        }
    }

    let by_status = list_integrations(&config, None, Some("active")).unwrap();
    for group in &by_status {
        for le in &group.entries {
            assert_eq!(le.status, IntegrationStatus::Active);
        }
    }

    let both = list_integrations(&config, Some("chat"), Some("active")).unwrap();
    let mut names: Vec<&str> = Vec::new();
    for group in &both {
        assert_eq!(group.category, IntegrationCategory::Chat);
        for le in &group.entries {
            assert_eq!(le.status, IntegrationStatus::Active);
            names.push(le.entry.name);
        }
    }
    assert_eq!(names, ["Telegram"]);
}

#[test]
fn search_empty_query_returns_all_sorted_by_name() {
    let config = Config::default();
    let results = search_integrations(&config, "", None, None).unwrap();
    assert_eq!(results.len(), all_integrations().len());
    for w in results.windows(2) {
        assert!(w[0].entry.name <= w[1].entry.name);
    }
}

#[test]
fn search_is_case_insensitive_substring_on_name_or_description() {
    let config = Config::default();

    let by_name = search_integrations(&config, "tele", None, None).unwrap();
    assert!(by_name.iter().any(|le| le.entry.name == "Telegram"));

    let upper = search_integrations(&config, "TELE", None, None).unwrap();
    assert!(upper.iter().any(|le| le.entry.name == "Telegram"));

    // matches in the description as well
    let by_description = search_integrations(&config, "homeserver", None, None).unwrap();
    assert!(by_description.iter().any(|le| le.entry.name == "Matrix"));
}

#[test]
fn info_is_case_insensitive_and_exact() {
    let config = Config::default();

    let details = show_integration_info(&config, "telegram").unwrap();
    assert_eq!(details.entry.name, "Telegram");

    let result = show_integration_info(&config, "tele");
    assert!(result.is_err());
    match result.unwrap_err() {
        IntegrationsError::UnknownIntegration { input } => assert_eq!(input, "tele"),
        _ => panic!("expected an unknown-integration error"),
    }
}

#[test]
fn catalog_and_status_evaluation_are_idempotent() {
    let a = all_integrations();
    let b = all_integrations();
    assert_eq!(a.len(), b.len());
    for (x, y) in a.iter().zip(b.iter()) {
        assert_eq!(x.name, y.name);
        assert_eq!(x.description, y.description);
        assert_eq!(x.category, y.category);
    }

    let config = Config::default();
    for entry in &a {
        assert_eq!(
            eval_status(entry.status_rule, &config),
            eval_status(entry.status_rule, &config)
        );
    }
}

#[test]
fn configuring_telegram_activates_only_telegram() {
    let unconfigured = Config::default();
    let mut configured = Config::default();
    configured.telegram_configured = true;

    let entries = all_integrations();
    for entry in &entries {
        let before = eval_status(entry.status_rule, &unconfigured);
        let after = eval_status(entry.status_rule, &configured);
        if entry.name == "Telegram" {
            assert_eq!(before, IntegrationStatus::Available);
            assert_eq!(after, IntegrationStatus::Active);
        } else {
            assert_eq!(before, after);
        }
    }
}

#[test]
fn list_ai_category_and_bogus_category() {
    let config = Config::default();

    let groups = list_integrations(&config, Some("ai"), None).unwrap();
    assert!(!groups.is_empty());
    for group in &groups {
        assert_eq!(group.category, IntegrationCategory::AiModel);
        for le in &group.entries {
            assert_eq!(le.entry.category, IntegrationCategory::AiModel);
        }
    }

    let err = list_integrations(&config, Some("bogus"), None).unwrap_err();
    let message = err.message();
    assert!(message.contains("bogus"));
    assert!(message.contains(
        "chat, ai, productivity, music, smart-home, tools, media, social, platforms"
    ));
}

#[test]
fn status_icon_matches_status() {
    assert_eq!(status_icon(IntegrationStatus::Active), ("\u{2705}", "Active"));
    assert_eq!(
        status_icon(IntegrationStatus::Available),
        ("\u{26aa}", "Available")
    );
    assert_eq!(
        status_icon(IntegrationStatus::ComingSoon),
        ("\u{1f51c}", "Coming Soon")
    );
}

#[test]
fn info_returns_setup_hints() {
    let config = Config::default();

    let telegram = show_integration_info(&config, "Telegram").unwrap();
    let hint = telegram.hint.expect("Telegram ships a setup hint");
    assert!(hint.contains("@BotFather"));

    // an entry without a specific hint that is coming soon gets the
    // generic planned hint
    let whatsapp = show_integration_info(&config, "WhatsApp").unwrap();
    assert_eq!(whatsapp.status, IntegrationStatus::ComingSoon);
    let generic = whatsapp.hint.expect("planned entries get the generic hint");
    assert!(generic.contains("planned"));

    // a built-in without a specific coming-soon status and without a
    // specific hint would get none; Browser has a specific hint
    let browser = show_integration_info(&config, "Browser").unwrap();
    assert_eq!(browser.status, IntegrationStatus::Active);
    assert!(browser.hint.unwrap().contains("Built-in"));
}

#[test]
fn search_filters_combine_with_query() {
    let mut config = Config::default();
    config.openrouter_configured = true;

    // "o" appears in many names; restrict to AI models that are active
    let results = search_integrations(&config, "o", Some("ai"), Some("active")).unwrap();
    let names: Vec<&str> = results.iter().map(|le| le.entry.name).collect();
    assert_eq!(names, ["OpenRouter"]);

    // invalid status filter fails even when the query matches nothing
    let err = search_integrations(&config, "zzz", None, Some("nope")).unwrap_err();
    assert!(err.message().contains("Unknown status"));
    assert!(err.message().contains("active, available, coming-soon"));
}
