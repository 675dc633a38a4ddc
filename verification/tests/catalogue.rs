use freyja::config::{Auth, ProviderDialect};
use freyja::presets::ProviderType;
use freyja::refusal::{refusals, Evidence, EFFORT_MAX, SCHEMALESS_JSON};

#[test]
fn every_preset_is_fully_populated() {
    for preset in [ProviderType::OpenAi, ProviderType::Gemini, ProviderType::Anthropic] {
        let config = preset.config();
        assert!(config.base_url.starts_with("https://"));
        assert!(config.default_model.is_some());
        assert_eq!(config.api_key_env, Some(preset.api_key_env()));
        assert_eq!(config.dialect, preset.dialect());
    }
}

#[test]
fn preset_urls_match_the_endpoints_freya_shipped_with() {
    assert_eq!(ProviderType::OpenAi.config().url(), "https://api.openai.com/v1/responses");
    assert_eq!(
        ProviderType::Gemini.config().url(),
        "https://generativelanguage.googleapis.com/v1beta/interactions"
    );
    assert_eq!(ProviderType::Anthropic.config().url(), "https://api.anthropic.com/v1/messages");
}

#[test]
fn a_preset_converts_into_its_config() {
    let config: freyja::config::ProviderConfig = ProviderType::Anthropic.into();
    assert_eq!(config.name, "Anthropic");
    assert_eq!(config.auth, Auth::Header("x-api-key"));
    assert_eq!(config.api_key_env, Some("ANTHROPIC_API_KEY"));
    assert_eq!(config.default_model.as_deref(), Some("opus-5"));
    assert_eq!(ProviderType::Gemini.api_key_env(), "GEMINI_API_KEY");
    assert_eq!(ProviderType::OpenAi.dialect(), ProviderDialect::OpenAiResponses);
}

#[test]
fn the_evidence_behind_every_refusal_is_accounted_for() {
    let table = refusals();
    let count = |wanted| table.iter().filter(|refusal| refusal.evidence == wanted).count();

    assert_eq!(count(Evidence::Probed), 4, "endpoint asked, said no");
    assert_eq!(count(Evidence::Inherent), 2, "no field could exist");
    assert_eq!(count(Evidence::Unverified), 8, "nobody has checked");
    assert_eq!(count(Evidence::Refuted), 1, "known wrong, still shipping");
    assert_eq!(table.len(), 15);
}

#[test]
fn no_dialect_refuses_the_same_capability_twice() {
    let table = refusals();
    for (index, refusal) in table.iter().enumerate() {
        let duplicate = table[..index]
            .iter()
            .any(|prior| prior.dialect == refusal.dialect && prior.capability == refusal.capability);

        assert!(!duplicate, "{:?} refuses {} twice", refusal.dialect, refusal.capability);
    }
}

#[test]
fn every_refusal_carries_a_note() {
    for refusal in refusals() {
        assert!(
            refusal.note.len() > 30,
            "{:?} / {} needs a note saying what was observed",
            refusal.dialect,
            refusal.capability
        );
    }
}

#[test]
fn the_table_records_the_refusals_the_dialects_raise() {
    let table = refusals();
    assert!(table
        .iter()
        .any(|r| r.dialect == ProviderDialect::Anthropic && r.capability == SCHEMALESS_JSON));
    assert!(table
        .iter()
        .any(|r| r.dialect == ProviderDialect::Gemini && r.capability == EFFORT_MAX));
}
