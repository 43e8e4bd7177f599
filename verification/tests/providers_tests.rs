use codex_session::providers::{
    open_provider_popup, provider_popup, ModelProvider, ProviderPopup, NO_PROVIDERS_CONFIGURED,
    PROVIDER_SELECTION_DISABLED,
};

fn provider(id: &str, name: &str, base_url: Option<&str>) -> ModelProvider {
    ModelProvider {
        id: id.to_string(),
        name: name.to_string(),
        base_url: base_url.map(str::to_string),
    }
}

fn providers() -> Vec<ModelProvider> {
    vec![
        provider("openai", "OpenAI", None),
        provider("alpha", "Alpha", Some("https://alpha.example/v1")),
        provider("zeta", "Zeta", Some("https://zeta.example/v1")),
    ]
}

#[test]
fn provider_popup_lists_only_user_configured_providers_and_selects_one() {
    let config = toml::Value::Table(
        r#"
[model_providers.zeta]
name = "Zeta"
base_url = "https://zeta.example/v1"

[model_providers.alpha]
name = "Alpha"
base_url = "https://alpha.example/v1"
"#
        .parse::<toml::Table>()
        .expect("provider config"),
    );
    let items = match open_provider_popup(true, Some(&config), &providers(), "alpha") {
        ProviderPopup::Choice(items) => items,
        other => panic!("expected a choice: {other:?}"),
    };
    assert_eq!(
        items
            .iter()
            .map(|item| (item.name.as_str(), item.is_current))
            .collect::<Vec<_>>(),
        vec![("alpha", true), ("zeta", false)]
    );
    assert!(items[1].description.contains("https://zeta.example/v1"));
}

#[test]
fn provider_popup_reports_when_config_has_no_user_providers() {
    let popup = open_provider_popup(true, None, &providers(), "openai");
    assert_eq!(
        popup,
        ProviderPopup::Message(NO_PROVIDERS_CONFIGURED.to_string())
    );
    assert!(NO_PROVIDERS_CONFIGURED.contains("No model providers are configured"));
}

#[test]
fn providers_cannot_be_chosen_before_the_session_is_configured() {
    assert_eq!(
        provider_popup(false, &vec!["alpha".to_string()], &providers(), "alpha"),
        ProviderPopup::Message(PROVIDER_SELECTION_DISABLED.to_string())
    );
}
