use bony::build::config::{parse_models_catalog, trim_toml_string, with_default_model, ConfigModels};

#[test]
fn parses_default_and_model_sections() {
    let text = r#"
[models]
default = "qwen-max"

[model.qwen-max]
model = "qwen-max"
name = "Qwen Max"
env_key = "DASHSCOPE_API_KEY"
base_url = "https://example.com/v1"

[model.kimi]
name = "Kimi"
env_key = "MOONSHOT_API_KEY"
"#;
    let cat = parse_models_catalog(text);
    assert_eq!(cat.default_id.as_deref(), Some("qwen-max"));
    assert_eq!(cat.models.len(), 2);
    assert_eq!(cat.models[0].name, "Qwen Max");
    assert!(cat.env_keys.contains(&"DASHSCOPE_API_KEY".into()));
    assert!(cat.env_keys.contains(&"MOONSHOT_API_KEY".into()));
}

#[test]
fn model_description_joins_base_url_and_env_key() {
    let cat = parse_models_catalog("[model.a]\nbase_url = \"https://x\"\nenv_key = \"K\"\n[model.b]\n");
    assert_eq!(cat.models.len(), 2);
    assert_eq!(cat.models[0].description, "https://x · env:K");
    assert_eq!(cat.models[1].name, "b");
    assert_eq!(cat.models[1].description, "");
    assert_eq!(cat.default_id.as_deref(), Some("a"));
    assert_eq!(cat.env_keys, vec!["K".to_string()]);
}

#[test]
fn inline_api_key_counts_without_its_value() {
    let cat = parse_models_catalog("[model.x]\napi_key = \"secret\"\n");
    assert_eq!(cat.env_keys, vec!["__inline_api_key__".to_string()]);
    assert_eq!(cat.models[0].description, "env:__inline_api_key__");
    let empty = parse_models_catalog("[model.x]\napi_key = \"\"\n");
    assert!(empty.env_keys.is_empty());
}

#[test]
fn empty_config_has_no_models() {
    let cat = parse_models_catalog("# nothing here\n\n");
    assert!(cat.default_id.is_none());
    assert!(cat.models.is_empty());
    let d = ConfigModels::default();
    assert!(d.models.is_empty());
}

#[test]
fn toml_values_unquote_and_drop_comments() {
    assert_eq!(trim_toml_string("  \"a \\\"b\\\" \\\\ c\"  "), "a \"b\" \\ c");
    assert_eq!(trim_toml_string("'single'"), "single");
    assert_eq!(trim_toml_string("bare # comment"), "bare");
}

#[test]
fn default_model_replaces_existing_line() {
    let text = "[models]\ndefault = \"old\"\n\n[model.a]\nname = \"A\"\n";
    assert_eq!(
        with_default_model(text, "new"),
        "[models]\ndefault = \"new\"\n\n[model.a]\nname = \"A\"\n"
    );
}

#[test]
fn default_model_inserted_after_section_header() {
    assert_eq!(with_default_model("[models]\nx = 1\n", "m"), "[models]\ndefault = \"m\"\nx = 1\n");
}

#[test]
fn default_model_section_appended_and_escaped() {
    assert_eq!(with_default_model("a = 1", "q\"x"), "a = 1\n\n[models]\ndefault = \"q\\\"x\"\n");
    assert_eq!(with_default_model("", "m"), "\n[models]\ndefault = \"m\"\n");
}

#[test]
fn default_model_round_trips_through_parse() {
    let text = with_default_model("[model.a]\nname = \"A\"\n", "b");
    let cat = parse_models_catalog(&text);
    assert_eq!(cat.default_id.as_deref(), Some("b"));
}

#[test]
fn default_model_set_twice_keeps_only_the_second() {
    let start = "[model.a]\nname = \"A\"\n\n[model.b]\nenv_key = \"B_KEY\"";
    let once = with_default_model(start, "a");
    let twice = with_default_model(&once, "b");
    assert_eq!(twice, with_default_model(start, "b"));
    let cat = parse_models_catalog(&twice);
    assert_eq!(cat.default_id.as_deref(), Some("b"));
    assert_eq!(cat.models.len(), 2);
}

#[test]
fn default_model_replaced_in_an_existing_section_reads_back() {
    let text = "[model.a]\nname = \"A\"\n\n[models]\n  default = \"a\"  \n\n[model.b]\nname = \"B\"\n";
    let t2 = with_default_model(text, "b");
    assert_eq!(t2, "[model.a]\nname = \"A\"\n\n[models]\n  default = \"b\"\n\n[model.b]\nname = \"B\"\n");
    assert_eq!(parse_models_catalog(&t2).default_id.as_deref(), Some("b"));
    let last = with_default_model("[models]\ndefault = \"a\"", "c");
    assert_eq!(last, "[models]\ndefault = \"c\"");
    assert_eq!(parse_models_catalog(&last).default_id.as_deref(), Some("c"));
}

#[test]
fn default_model_replaced_after_other_section_lines_reads_back() {
    let text = "[models]\n# picked by hand\nfallback = \"x\"\n\t default = \"a\"\n[model.b]\nname = \"B\"\n";
    let t2 = with_default_model(text, "b");
    assert_eq!(t2, "[models]\n# picked by hand\nfallback = \"x\"\n\t default = \"b\"\n[model.b]\nname = \"B\"\n");
    assert_eq!(parse_models_catalog(&t2).default_id.as_deref(), Some("b"));
}

#[test]
fn default_model_inserted_into_a_section_without_one_reads_back() {
    let text = "[model.a]\nname = \"A\"\n[models]\nfallback = \"x\"\n[model.b]\nname = \"B\"\n";
    let t2 = with_default_model(text, "b");
    assert_eq!(t2, "[model.a]\nname = \"A\"\n[models]\ndefault = \"b\"\nfallback = \"x\"\n[model.b]\nname = \"B\"\n");
    assert_eq!(parse_models_catalog(&t2).default_id.as_deref(), Some("b"));
    let bare = with_default_model("[models]", "c");
    assert_eq!(bare, "[models]\ndefault = \"c\"\n");
    assert_eq!(parse_models_catalog(&bare).default_id.as_deref(), Some("c"));
}

#[test]
fn default_model_with_quotes_and_backslashes_reads_back() {
    let id = "team\\\"x\\\\y\"";
    let t2 = with_default_model("[models]\ndefault = \"a\"\n", id);
    assert_eq!(t2, "[models]\ndefault = \"team\\\\\\\"x\\\\\\\\y\\\"\"\n");
    assert_eq!(parse_models_catalog(&t2).default_id.as_deref(), Some(id));
}

#[test]
fn default_model_in_crlf_text_reads_back() {
    let text = "[models]\r\ndefault = \"a\"\r\n[model.a]\r\nname = \"A\"\r\n";
    let t2 = with_default_model(text, "b");
    assert_eq!(t2, "[models]\r\ndefault = \"b\"\r\n[model.a]\r\nname = \"A\"\r\n");
    assert_eq!(parse_models_catalog(&t2).default_id.as_deref(), Some("b"));
    let bare = with_default_model("[models]\r\nfallback = \"x\"\r\n", "c");
    assert_eq!(bare, "[models]\ndefault = \"c\"\n\r\nfallback = \"x\"\r\n");
    assert_eq!(parse_models_catalog(&bare).default_id.as_deref(), Some("c"));
}
