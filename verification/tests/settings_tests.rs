use cyber_ai::role::{parse_role, role_display, role_name, Role};
use cyber_ai::settings::{get_settings, GlobalSettings, Settings};
use cyber_ai::text::u16_to_decimal;

#[test]
fn default_settings_match_the_documented_values() {
    let settings = Settings::default();
    assert_eq!(settings.get_api_base(), "https://api.openai.com/v1");
    assert_eq!(settings.get_api_key(), "");
    assert_eq!(settings.get_org_id(), "");
    assert_eq!(settings.get_model(), "gpt-3.5-turbo");
    assert_eq!(settings.get_max_tokens(), 512);
}

#[test]
fn default_settings_render_as_expected() {
    let settings = Settings::default();
    let text = get_settings(&settings);
    assert_eq!(
        text,
        "api_base: https://api.openai.com/v1\napi_key: \norg_id: \nmodel: gpt-3.5-turbo\nmax_tokens: 512\n"
    );
}

#[test]
fn loaded_settings_render_their_values() {
    let settings = Settings::new(
        "https://example.test/v1".to_string(),
        "not-a-real-key".to_string(),
        "org-42".to_string(),
        "gpt-4".to_string(),
        2048,
    );
    assert_eq!(settings.get_api_key(), "not-a-real-key");
    assert_eq!(settings.get_max_tokens(), 2048);
    let holder = GlobalSettings { settings };
    let text = get_settings(&holder.settings);
    assert_eq!(
        text,
        "api_base: https://example.test/v1\napi_key: not-a-real-key\norg_id: org-42\nmodel: gpt-4\nmax_tokens: 2048\n"
    );
}

#[test]
fn decimal_rendering_is_exact() {
    assert_eq!(u16_to_decimal(0), "0");
    assert_eq!(u16_to_decimal(7), "7");
    assert_eq!(u16_to_decimal(10), "10");
    assert_eq!(u16_to_decimal(512), "512");
    assert_eq!(u16_to_decimal(65535), "65535");
}

#[test]
fn role_parsing_accepts_the_three_spellings_only() {
    assert_eq!(parse_role(&"System".to_string()), Some(Role::System));
    assert_eq!(parse_role(&"User".to_string()), Some(Role::User));
    assert_eq!(parse_role(&"Assistant".to_string()), Some(Role::Assistant));
    assert_eq!(parse_role(&"Function".to_string()), None);
    assert_eq!(parse_role(&"user".to_string()), None);
    assert_eq!(parse_role(&"".to_string()), None);
}

#[test]
fn role_spellings_render_both_ways() {
    assert_eq!(role_name(Role::System), "System");
    assert_eq!(role_name(Role::Function), "Function");
    assert_eq!(role_display(Role::System), "system");
    assert_eq!(role_display(Role::Function), "function");
}
