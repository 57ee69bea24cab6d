use zeroclaw_integrations::filters::{parse_category_filter, parse_status_filter};
use zeroclaw_integrations::model::{Config, IntegrationCategory, IntegrationStatus};
use zeroclaw_integrations::query::{handle_command, IntegrationCommands};
use zeroclaw_integrations::registry::all_integrations;

#[test]
fn integration_category_all_includes_every_variant_once() {
    let all = IntegrationCategory::all();
    assert_eq!(all.len(), 9);

    let labels: Vec<&str> = all.iter().map(|cat| cat.label()).collect();
    assert!(labels.contains(&"Chat Providers"));
    assert!(labels.contains(&"AI Models"));
    assert!(labels.contains(&"Productivity"));
    assert!(labels.contains(&"Music & Audio"));
    assert!(labels.contains(&"Smart Home"));
    assert!(labels.contains(&"Tools & Automation"));
    assert!(labels.contains(&"Media & Creative"));
    assert!(labels.contains(&"Social"));
    assert!(labels.contains(&"Platforms"));
}

#[test]
fn handle_command_info_is_case_insensitive_for_known_integrations() {
    let config = Config::default();
    let first_name = all_integrations()
        .first()
        .expect("registry should define at least one integration")
        .name
        .to_lowercase();

    let result = handle_command(IntegrationCommands::Info { name: first_name }, &config);

    assert!(result.is_ok());
}

#[test]
fn handle_command_info_returns_error_for_unknown_integration() {
    let config = Config::default();
    let result = handle_command(
        IntegrationCommands::Info {
            name: "definitely-not-a-real-integration".into(),
        },
        &config,
    );

    assert!(result.is_err());
    let err = result.unwrap_err().message();
    assert!(err.contains("Unknown integration"));
}

#[test]
fn handle_command_list_returns_ok() {
    let config = Config::default();
    let result = handle_command(
        IntegrationCommands::List {
            category: None,
            status: None,
        },
        &config,
    );
    assert!(result.is_ok());
}

#[test]
fn handle_command_list_with_category_filter() {
    let config = Config::default();
    let result = handle_command(
        IntegrationCommands::List {
            category: Some("chat".into()),
            status: None,
        },
        &config,
    );
    assert!(result.is_ok());
}

#[test]
fn handle_command_list_with_invalid_category() {
    let config = Config::default();
    let result = handle_command(
        IntegrationCommands::List {
            category: Some("invalid-category".into()),
            status: None,
        },
        &config,
    );
    assert!(result.is_err());
    let err = result.unwrap_err().message();
    assert!(err.contains("Unknown category"));
}

#[test]
fn handle_command_list_with_status_filter() {
    let config = Config::default();
    let result = handle_command(
        IntegrationCommands::List {
            category: None,
            status: Some("available".into()),
        },
        &config,
    );
    assert!(result.is_ok());
}

#[test]
fn handle_command_list_with_invalid_status() {
    let config = Config::default();
    let result = handle_command(
        IntegrationCommands::List {
            category: None,
            status: Some("invalid-status".into()),
        },
        &config,
    );
    assert!(result.is_err());
    let err = result.unwrap_err().message();
    assert!(err.contains("Unknown status"));
}

#[test]
fn handle_command_search_returns_ok() {
    let config = Config::default();
    let result = handle_command(
        IntegrationCommands::Search {
            query: "telegram".into(),
            category: None,
            status: None,
        },
        &config,
    );
    assert!(result.is_ok());
}

#[test]
fn handle_command_search_no_results_is_ok() {
    let config = Config::default();
    let result = handle_command(
        IntegrationCommands::Search {
            query: "xyznonexistent123".into(),
            category: None,
            status: None,
        },
        &config,
    );
    assert!(result.is_ok()); // No results is not an error
}

#[test]
fn parse_category_filter_handles_aliases() {
    assert!(matches!(
        parse_category_filter("ai"),
        Ok(IntegrationCategory::AiModel)
    ));
    assert!(matches!(
        parse_category_filter("AI"),
        Ok(IntegrationCategory::AiModel)
    ));
    assert!(matches!(
        parse_category_filter("models"),
        Ok(IntegrationCategory::AiModel)
    ));
    assert!(matches!(
        parse_category_filter("smart-home"),
        Ok(IntegrationCategory::SmartHome)
    ));
    assert!(matches!(
        parse_category_filter("smarthome"),
        Ok(IntegrationCategory::SmartHome)
    ));
}

#[test]
fn parse_status_filter_handles_aliases() {
    assert!(matches!(
        parse_status_filter("active"),
        Ok(IntegrationStatus::Active)
    ));
    assert!(matches!(
        parse_status_filter("enabled"),
        Ok(IntegrationStatus::Active)
    ));
    assert!(matches!(
        parse_status_filter("available"),
        Ok(IntegrationStatus::Available)
    ));
    assert!(matches!(
        parse_status_filter("coming-soon"),
        Ok(IntegrationStatus::ComingSoon)
    ));
    assert!(matches!(
        parse_status_filter("soon"),
        Ok(IntegrationStatus::ComingSoon)
    ));
}
