use codex_session::model_repair::{
    configured_model, correction, user_config_correction, user_provider_ids,
    ModelProviderCorrection,
};

fn ids(ids: &[&str]) -> Vec<String> {
    ids.iter().map(|id| id.to_string()).collect()
}

fn config(text: &str) -> toml::Value {
    toml::Value::Table(text.parse::<toml::Table>().expect("valid configuration"))
}

#[test]
fn gpt_model_uses_first_configured_non_deepseek_provider() {
    assert_eq!(
        correction(
            &Some("gpt-5.6-luna".to_string()),
            false,
            "deepseek",
            &ids(&["zeta", "deepseek", "anyrouter"]),
        ),
        Ok(Some(ModelProviderCorrection {
            model: "gpt-5.6-luna".to_string(),
            model_provider: "anyrouter".to_string(),
        }))
    );
}

#[test]
fn deepseek_provider_without_model_selects_default_deepseek_model() {
    assert_eq!(
        correction(&None, true, "deepseek", &ids(&["deepseek"])),
        Ok(Some(ModelProviderCorrection {
            model: "deepseek-flash".to_string(),
            model_provider: "deepseek".to_string(),
        }))
    );
}

#[test]
fn missing_providers_are_errors() {
    assert_eq!(
        correction(
            &Some("deepseek-pro".to_string()),
            true,
            "openai",
            &ids(&["other"])
        ),
        Err("Model provider `deepseek` required by model `deepseek-pro` was not found".to_string())
    );
    assert_eq!(
        correction(
            &Some("gpt".to_string()),
            false,
            "deepseek",
            &ids(&["deepseek", "deepseek"])
        ),
        Err("No non-DeepSeek model provider is configured for model `gpt`".to_string())
    );
}

#[test]
fn matching_models_and_providers_stay() {
    for (model, deepseek, provider) in [
        (Some("deepseek-pro"), true, "deepseek"),
        (Some("gpt"), false, "openai"),
        (None, false, "openai"),
    ] {
        assert_eq!(
            correction(
                &model.map(str::to_string),
                deepseek,
                provider,
                &ids(&["deepseek"])
            ),
            Ok(None)
        );
    }
}

#[test]
fn configuration_decides_model_provider_and_ids() {
    let config = config(
        "model = \"deepseek-pro\"\n[model_providers.zeta]\nname = \"Z\"\n[model_providers.deepseek]\nname = \"D\"\n",
    );
    assert_eq!(configured_model(&config).as_deref(), Some("deepseek-pro"));
    let mut found = user_provider_ids(&config);
    found.sort();
    assert_eq!(found, ids(&["deepseek", "zeta"]));
    assert_eq!(
        user_config_correction(Some(&config), true),
        Ok(Some(ModelProviderCorrection {
            model: "deepseek-pro".to_string(),
            model_provider: "deepseek".to_string(),
        }))
    );
    assert_eq!(user_config_correction(None, true), Ok(None));
}

#[test]
fn values_of_other_kinds_do_not_count() {
    let config = config("model = 3\nmodel_provider = \"deepseek\"\nmodel_providers = \"none\"\n");
    assert_eq!(configured_model(&config).as_deref(), Some("deepseek-flash"));
    assert_eq!(user_provider_ids(&config), Vec::<String>::new());
}
