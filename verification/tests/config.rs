use agent_bridge::auth::{
    auth_check_status, device_authorization, device_id_from, ensure_fresh_token,
    get_or_create_device_id, is_logged_in, is_logged_in_at, load_token,
    needs_refresh, oauth_client_id, poll_for_token, poll_interval_secs, refresh_token,
    token_is_fresh, AuthConfig as StoredAuth, OAuthToken, PollOutcome, RefreshOutcome,
};
use agent_bridge::browser::{
    agent_browser_policy, agent_browser_status, shell_command_with_agent_browser_home,
    shell_escape_path, BrowserProbe,
};
use agent_bridge::chat::{chat_plan, combined_prompt, platform_label, GuiSettings};
use agent_bridge::config::{
    browser_user_agent, common_headers, common_headers_for, config_format, default_config_data,
    encode_config_as, encode_config_content, parse_config_as, parse_config_content,
    parse_service_config, search_request, service_headers, ConfigFormat,
};
use agent_bridge::json::{read_json, strip_nulls, Json};
use agent_bridge::mode::{AuthConfig, AuthMode};
use agent_bridge::tool_defs::{tool_definitions, ParameterKind};
use agent_bridge::wire::{
    cowork_closing_event, cowork_step_event, oauth_closing_event, oauth_waiting_event,
};

#[test]
fn api_mode_needs_a_key() {
    let mut config = AuthConfig::default();
    assert_eq!(config.mode, AuthMode::Api);
    assert_eq!(AuthMode::default(), AuthMode::Api);
    assert!(!config.is_configured());
    config.api_key = Some(String::new());
    assert!(!config.is_configured());
    config.api_key = Some("sk-1".into());
    assert!(config.is_configured());
    config.api_key = None;
    config.mode = AuthMode::Cli;
    assert!(config.is_configured());
}

#[test]
fn api_base_falls_back_to_the_default() {
    let mut config = AuthConfig::default();
    assert_eq!(config.effective_api_base(), "https://api.moonshot.cn/v1");
    config.api_base = Some(String::new());
    assert_eq!(config.effective_api_base(), "https://api.moonshot.cn/v1");
    config.api_base = Some("https://example.org/v1".into());
    assert_eq!(config.effective_api_base(), "https://example.org/v1");
}

fn token(expires_at_micros: i64) -> OAuthToken {
    OAuthToken {
        access_token: "old".into(),
        refresh_token: "r".into(),
        expires_at_micros,
        scope: String::new(),
        token_type: "Bearer".into(),
    }
}

#[test]
fn login_needs_a_fresh_token() {
    let now = 1_000_000_000_000_000;
    assert!(!is_logged_in_at(None, now));
    assert!(is_logged_in_at(Some(&token(now + 300_000_001)), now));
    assert!(!is_logged_in_at(Some(&token(now + 300_000_000)), now));
    assert!(!is_logged_in_at(Some(&token(now - 1)), now));
    assert!(!is_logged_in(None));
    assert!(is_logged_in(Some(&token(i64::MAX))));
    assert!(!is_logged_in(Some(&token(1_600_000_000_000_000))));
    assert!(token_is_fresh(i64::MAX, i64::MAX - 300_000_001));
    assert!(!token_is_fresh(i64::MAX, i64::MAX));
    assert!(needs_refresh(&token(now + 299_999_999), now));
    assert!(!needs_refresh(&token(now + 300_000_000), now));
}

#[test]
fn stored_settings_and_status() {
    let config = StoredAuth::default();
    assert_eq!(config.mode, "oauth");
    let status = auth_check_status(false, &config);
    assert_eq!((status.is_logged_in, status.user, status.mode.as_str()), (false, None, "none"));
    let keyed = StoredAuth::with_api_key("sk".into(), Some(String::new()));
    assert_eq!((keyed.mode.as_str(), keyed.api_key.as_deref(), keyed.api_base.clone()), ("api_key", Some("sk"), None));
    let based = StoredAuth::with_api_key("sk".into(), Some("https://b".into()));
    assert_eq!(based.api_base.as_deref(), Some("https://b"));
    let status = auth_check_status(false, &keyed);
    assert_eq!((status.is_logged_in, status.user.as_deref(), status.mode.as_str()), (true, Some("User"), "api_key"));
    let status = auth_check_status(true, &keyed);
    assert_eq!(status.mode, "oauth");
    let empty = StoredAuth::with_api_key(String::new(), None);
    assert!(!auth_check_status(false, &empty).is_logged_in);
    let mut wrong_mode = keyed.clone();
    wrong_mode.mode = "oauth".into();
    assert!(!wrong_mode.api_key_valid());
}

#[test]
fn device_login_answers() {
    assert_eq!(oauth_client_id(), "17e5f671-d194-4dfb-9706-5516cb48c098");
    let body = read_json(r#"{"user_code":"AB-12","device_code":"d","verification_uri":"https://v","expires_in":600,"interval":"7"}"#).unwrap();
    let auth = device_authorization(&body);
    assert_eq!((auth.user_code.as_str(), auth.device_code.as_str(), auth.verification_uri.as_str()), ("AB-12", "d", "https://v"));
    assert_eq!((auth.verification_uri_complete.as_str(), auth.expires_in, auth.interval), ("", Some(600), 5));
    assert_eq!(poll_interval_secs(&auth), 5);
    let mut quick = auth.clone();
    quick.interval = 0;
    assert_eq!(poll_interval_secs(&quick), 1);
    quick.interval = -3;
    assert_eq!(poll_interval_secs(&quick), 1);

    let granted = read_json(r#"{"access_token":"a","expires_in":1800.5}"#).unwrap();
    match poll_for_token(true, &granted) {
        PollOutcome::Granted { grant } => {
            assert_eq!((grant.access_token.as_str(), grant.refresh_token.as_str(), grant.token_type.as_str()), ("a", "", "Bearer"));
            assert!(matches!(grant.expires_in, Some(Json::Real(ref t)) if t == "1800.5"));
        }
        _ => panic!("the token is granted"),
    }
    assert!(matches!(poll_for_token(false, &granted), PollOutcome::Failed { error } if error == "Authorization failed: unknown_error"));
    let pending = read_json(r#"{"error":"authorization_pending"}"#).unwrap();
    assert!(matches!(poll_for_token(false, &pending), PollOutcome::Pending));
    assert!(matches!(poll_for_token(true, &pending), PollOutcome::Pending));
    let expired = read_json(r#"{"error":"expired_token"}"#).unwrap();
    assert!(matches!(poll_for_token(false, &expired), PollOutcome::Failed { error } if error == "Device code expired. Please try again."));
    let denied = read_json(r#"{"error":"access_denied"}"#).unwrap();
    assert!(matches!(poll_for_token(false, &denied), PollOutcome::Failed { error } if error == "Authorization was denied."));
    let other = read_json(r#"{"error":"slow_down","error_description":"Too fast"}"#).unwrap();
    assert!(matches!(poll_for_token(false, &other), PollOutcome::Failed { error } if error == "Authorization failed: Too fast"));
    let bare = read_json(r#"{"error":"slow_down"}"#).unwrap();
    assert!(matches!(poll_for_token(false, &bare), PollOutcome::Failed { error } if error == "Authorization failed: slow_down"));

    let refreshed = refresh_token(&read_json(r#"{"access_token":"n","scope":"s"}"#).unwrap(), "keep");
    assert_eq!((refreshed.access_token.as_str(), refreshed.refresh_token.as_str(), refreshed.scope.as_str()), ("n", "keep", "s"));
    assert!(refreshed.expires_in.is_none());
}

#[test]
fn stored_token_and_refresh() {
    let doc = read_json(r#"{"access_token":"a","refresh_token":"r","expires_at":1700000000.5,"scope":"s","token_type":"Bearer"}"#).unwrap();
    let t = load_token(&doc, Some(1_700_000_000_500_000)).unwrap();
    assert_eq!((t.access_token.as_str(), t.expires_at_micros), ("a", 1_700_000_000_500_000));
    assert!(load_token(&doc, None).is_none());
    let partial = read_json(r#"{"access_token":"a","refresh_token":"r","expires_at":"soon","scope":"s","token_type":"Bearer"}"#).unwrap();
    assert!(load_token(&partial, Some(1)).is_none());
    let missing = read_json(r#"{"access_token":"a","expires_at":1,"scope":"s","token_type":"Bearer"}"#).unwrap();
    assert!(load_token(&missing, Some(1)).is_none());

    let now = 1_000_000;
    let fresh = token(now + 400_000_000);
    let due = token(now + 1);
    assert_eq!(ensure_fresh_token(&fresh, now, &RefreshOutcome::Failed).as_deref(), Some("old"));
    assert_eq!(ensure_fresh_token(&due, now, &RefreshOutcome::Failed).as_deref(), Some("old"));
    assert_eq!(ensure_fresh_token(&due, now, &RefreshOutcome::Refreshed { access_token: "new".into(), saved: true }).as_deref(), Some("new"));
    assert_eq!(ensure_fresh_token(&due, now, &RefreshOutcome::Refreshed { access_token: "new".into(), saved: false }), None);
}

#[test]
fn service_is_read_from_the_configuration() {
    let doc = read_json(
        r#"{"services":{"moonshot_search":{"base_url":"https://s","api_key":"k","custom_headers":{"X-A":"1","X-B":2,"X-C":"3"}},"broken":{"base_url":"https://s"},"typed":{"base_url":1,"api_key":"k"}}}"#,
    )
    .unwrap();
    let service = parse_service_config(&doc, "moonshot_search").unwrap();
    assert_eq!((service.base_url.as_str(), service.api_key.as_str()), ("https://s", "k"));
    assert_eq!(service.custom_headers, vec![("X-A".to_string(), "1".to_string()), ("X-C".to_string(), "3".to_string())]);
    assert!(parse_service_config(&doc, "moonshot_fetch").is_none());
    assert!(parse_service_config(&doc, "broken").is_none());
    assert!(parse_service_config(&doc, "typed").is_none());
    assert!(parse_service_config(&read_json("[]").unwrap(), "x").is_none());

    let common = common_headers_for("box", "x86_64", "linux", "dev1");
    let here = common_headers("x86_64", "linux", "dev1");
    assert_eq!(here.len(), 7);
    assert_eq!(here[3].0, "X-Msh-Device-Name");
    assert_eq!((&here[..3], &here[4..]), (&common[..3], &common[4..]));
    assert_eq!(common.len(), 7);
    assert_eq!(common[0], ("User-Agent".to_string(), "KimiCLI/0.1.0".to_string()));
    assert_eq!(common[5], ("X-Msh-Os-Version".to_string(), "linux x86_64".to_string()));
    assert_eq!(common[6], ("X-Msh-Device-Id".to_string(), "dev1".to_string()));
    let headers = service_headers(&service, "call-1", &common, true);
    assert_eq!(headers[0], ("Authorization".to_string(), "Bearer k".to_string()));
    assert_eq!(headers[1], ("Accept".to_string(), "text/markdown".to_string()));
    assert_eq!(headers[2], ("X-Msh-Tool-Call-Id".to_string(), "call-1".to_string()));
    assert_eq!(headers.len(), 3 + 7 + 2);
    assert_eq!(headers[11], ("X-C".to_string(), "3".to_string()));
    let headers = service_headers(&service, "call-1", &common, false);
    assert_eq!(headers[1].0, "X-Msh-Tool-Call-Id");
    assert_eq!(headers.len(), 2 + 7 + 2);
    let request = search_request("rust", 5, true);
    assert_eq!((request.text_query.as_str(), request.limit, request.enable_page_crawling, request.timeout_seconds), ("rust", 5, true, 30));
    assert!(browser_user_agent().starts_with("Mozilla/5.0 (Windows NT 10.0; Win64; x64)"));
    assert!(browser_user_agent().ends_with("Chrome/91.0.4472.124 Safari/537.36"));
}

#[test]
fn configuration_in_both_formats() {
    assert_eq!(config_format("/home/me/config.json"), ConfigFormat::Json);
    assert_eq!(config_format("/home/me/config.toml"), ConfigFormat::Toml);
    assert_eq!(config_format("/home/me/config"), ConfigFormat::Toml);
    let doc = parse_config_content("c.toml", "default_model = \"k2\"\n[services.moonshot_search]\nbase_url = \"https://s\"\napi_key = \"k\"\n").unwrap();
    assert_eq!(doc.text_at("default_model"), Some("k2"));
    assert!(parse_service_config(&doc, "moonshot_search").is_some());
    let doc = parse_config_content("c.json", r#"{"default_model":"k3"}"#).unwrap();
    assert_eq!(doc.text_at("default_model"), Some("k3"));
    let err = parse_config_content("c.json", "default_model = 1").unwrap_err();
    assert!(err.starts_with("Invalid JSON in \"c.json\": "), "{err}");
    let err = parse_config_content("c.toml", "{").unwrap_err();
    assert!(err.starts_with("Invalid TOML in \"c.toml\": "), "{err}");
    let err = parse_config_as(ConfigFormat::Toml, "odd \"name\"", "= 1").unwrap_err();
    assert!(err.starts_with("Invalid TOML in \"odd \\\"name\\\"\": "), "{err}");
}

#[test]
fn configuration_is_written_and_read_back() {
    let doc = default_config_data();
    assert_eq!(doc.text_at("default_model"), Some(""));
    assert!(matches!(doc.get("loop_control").unwrap().get("max_steps_per_turn"), Some(Json::Int(100))));
    assert!(matches!(doc.get("mcp").unwrap().get("client").unwrap().get("tool_call_timeout_ms"), Some(Json::Int(60000))));
    assert_eq!(doc.as_object().unwrap().len(), 7);
    let json = encode_config_content("x.json", &doc).unwrap();
    assert!(json.contains("\"reserved_context_size\": 50000"));
    let back = parse_config_as(ConfigFormat::Json, "x.json", &json).unwrap();
    assert!(matches!(back.get("loop_control").unwrap().get("max_retries_per_step"), Some(Json::Int(3))));
    let toml = encode_config_as(ConfigFormat::Toml, &doc).unwrap();
    assert!(toml.contains("default_thinking = false"));
    let back = parse_config_as(ConfigFormat::Toml, "x.toml", &toml).unwrap();
    assert!(matches!(back.get("loop_control").unwrap().get("max_ralph_iterations"), Some(Json::Int(0))));
    let err = encode_config_as(ConfigFormat::Toml, &Json::Int(1)).unwrap_err();
    assert!(err.starts_with("Failed to encode TOML: "), "{err}");
}

#[test]
fn nulls_are_stripped_at_every_depth() {
    let doc = read_json(r#"{"a":null,"b":[1,null,{"c":null,"d":[null]},[null,2]],"e":{"f":null,"g":"x"}}"#).unwrap();
    let clean = strip_nulls(doc);
    let text = encode_config_as(ConfigFormat::Json, &clean).unwrap();
    let compact: String = text.chars().filter(|c| !c.is_whitespace()).collect();
    assert_eq!(compact, r#"{"b":[1,{"d":[]},[2]],"e":{"g":"x"}}"#);
    assert!(strip_nulls(Json::Null).is_null());
}

#[test]
fn browser_tool_is_found_in_order() {
    let probe = |binary: Option<&str>, home: Option<&str>, in_path: bool, npx: bool| BrowserProbe {
        bundled_binary: binary.map(String::from),
        bundled_home: home.map(String::from),
        in_path,
        npx,
    };
    let status = agent_browser_status(&probe(Some("/r/agent-browser"), Some("/r/it's home"), true, true), false);
    assert!(status.available);
    assert_eq!(status.command.as_deref(), Some("AGENT_BROWSER_HOME='/r/it'\\''s home' '/r/agent-browser'"));
    assert_eq!(status.detail, "Bundled agent-browser found at /r/agent-browser with runtime /r/it's home");
    let status = agent_browser_status(&probe(Some("/r/agent-browser"), None, true, true), false);
    assert_eq!((status.command.as_deref(), status.detail.as_str()), (Some("agent-browser"), "agent-browser is available in PATH."));
    let status = agent_browser_status(&probe(None, Some("/r/home"), false, true), false);
    assert_eq!(status.command.as_deref(), Some("npx --yes agent-browser"));
    assert_eq!(status.detail, "agent-browser not found in PATH; npx fallback is available.");
    let status = agent_browser_status(&probe(Some("/r/ab"), None, false, false), false);
    assert_eq!((status.available, status.command.clone()), (false, None));
    assert_eq!(status.detail, "Bundled agent-browser binary found at /r/ab, but runtime is missing.");
    assert!(agent_browser_policy(&status).contains("currently unavailable in this environment (Bundled agent-browser binary found at /r/ab, but runtime is missing.)."));
    let status = agent_browser_status(&probe(None, None, false, false), false);
    assert_eq!(status.detail, "Neither bundled agent-browser runtime, agent-browser in PATH, nor npx fallback is available.");
    let status = agent_browser_status(&probe(None, None, true, false), false);
    let policy = agent_browser_policy(&status);
    assert!(policy.starts_with("Internet access policy:\n- For any request that needs internet/web pages, you MUST use the Shell tool with agent-browser.\n- Command prefix: agent-browser\n- Default flow:"));
    assert!(policy.ends_with("- Do NOT use SearchWeb or FetchURL."));
}

#[test]
fn paths_are_quoted_for_the_shell() {
    assert_eq!(shell_escape_path("/a b/c", false), "'/a b/c'");
    assert_eq!(shell_escape_path("it's", false), "'it'\\''s'");
    assert_eq!(shell_escape_path("C:\\a \"b\"", true), "\"C:\\a \"\"b\"\"\"");
    assert_eq!(
        shell_command_with_agent_browser_home("C:\\ab.exe", "C:\\h\"x", true),
        "set \"AGENT_BROWSER_HOME=C:\\h\"\"x\" && \"C:\\ab.exe\""
    );
}

#[test]
fn chat_settings_have_defaults() {
    let plan = chat_plan(&GuiSettings::default(), "hello", "/home/me/.kimicodegui/config.toml");
    assert_eq!((plan.model.as_str(), plan.work_dir.as_str(), plan.config_path.as_str()), ("kimi-k2.5", ".", "/home/me/.kimicodegui/config.toml"));
    assert_eq!((plan.auto_approve, plan.title.as_str()), (false, "hello"));
    let mut settings = GuiSettings::default();
    settings.model = Some(String::new());
    settings.work_dir = Some("   ".into());
    settings.config_file = Some(String::new());
    settings.yolo = Some(false);
    let plan = chat_plan(&settings, &"m".repeat(60), "/d");
    assert_eq!((plan.model.as_str(), plan.work_dir.as_str(), plan.config_path.as_str(), plan.auto_approve), ("kimi-k2.5", ".", "/d", false));
    assert_eq!(plan.title, format!("{}...", "m".repeat(47)));
    settings.model = Some("k3".into());
    settings.work_dir = Some("/w".into());
    settings.config_file = Some("/c.toml".into());
    settings.yolo = Some(true);
    let plan = chat_plan(&settings, "x", "/d");
    assert_eq!((plan.model.as_str(), plan.work_dir.as_str(), plan.config_path.as_str(), plan.auto_approve), ("k3", "/w", "/c.toml", true));
    assert_eq!(combined_prompt("  ", "POLICY"), "POLICY");
    assert_eq!(combined_prompt("Be brief.", "POLICY"), "Be brief.\n\nPOLICY");
    assert_eq!(platform_label("macos"), "macOS");
    assert_eq!(platform_label("windows"), "Windows");
    assert_eq!(platform_label("linux"), "Linux");
    assert_eq!(platform_label("freebsd"), "freebsd");
}

#[test]
fn tools_are_offered_in_order() {
    let tools = tool_definitions();
    let names: Vec<&str> = tools.iter().map(|t| t.name.as_str()).collect();
    assert_eq!(names, vec!["ReadFile", "Shell", "WriteFile", "StrReplaceFile", "SearchWeb", "FetchURL"]);
    let required: Vec<Vec<&str>> = tools
        .iter()
        .map(|t| t.parameters.iter().filter(|p| p.required).map(|p| p.name.as_str()).collect())
        .collect();
    assert_eq!(required, vec![vec!["path"], vec!["command"], vec!["path", "content"], vec!["path", "edit"], vec!["query"], vec!["url"]]);
    assert_eq!(tools[3].parameters[1].kind, ParameterKind::Edits);
    assert_eq!(tools[2].parameters[2].kind, ParameterKind::WriteMode);
    assert_eq!(tools[0].parameters[1].description, "Line number to start from.");
}

#[test]
fn device_id_is_kept_or_drawn() {
    assert_eq!(device_id_from(Some(" abc\n"), "ignored"), ("abc".to_string(), false));
    assert_eq!(
        device_id_from(None, "123e4567-e89b-42d3-a456-426614174000"),
        ("123e4567e89b42d3a456426614174000".to_string(), true)
    );
    assert_eq!(get_or_create_device_id(Some("kept")), ("kept".to_string(), false));
    let (id, is_new) = get_or_create_device_id(None);
    assert!(is_new);
    assert_eq!(id.len(), 32);
    assert!(id.chars().all(|c| c.is_ascii_hexdigit()));
    assert_ne!(get_or_create_device_id(None).0, id);
}

#[test]
fn files_are_shown_with_their_meaning() {
    let shown = agent_bridge::config::config_payload("c.json", "{\"a\":\"b\"}".to_string()).unwrap();
    assert_eq!((shown.path.as_str(), shown.raw.as_str(), shown.data.text_at("a")), ("c.json", "{\"a\":\"b\"}", Some("b")));
    assert!(agent_bridge::config::config_payload("c.json", "a = 1".to_string()).is_err());
    let shown = agent_bridge::config::mcp_payload("m.json", "{\"mcpServers\":{}}".to_string()).unwrap();
    assert_eq!(shown.data.get("mcpServers").unwrap().as_object().unwrap().len(), 0);
    let err = agent_bridge::config::mcp_payload("m.json", "nope".to_string()).unwrap_err();
    assert!(err.starts_with("Invalid MCP JSON: "), "{err}");
    let text = encode_config_as(ConfigFormat::Json, &agent_bridge::config::default_mcp_data()).unwrap();
    assert_eq!(text, "{\n  \"mcpServers\": {}\n}");
}

#[test]
fn task_and_login_events() {
    let e = cowork_step_event("Tidy up");
    assert_eq!(e.event, "step");
    assert_eq!((e.data.text_at("title"), e.data.text_at("description")), (Some("Starting task"), Some("Tidy up")));
    assert_eq!(e.data.as_object().unwrap().len(), 2);
    let e = cowork_closing_event(&Ok(()));
    assert_eq!((e.event.as_str(), e.data.as_object().unwrap().len()), ("done", 0));
    let e = cowork_closing_event(&Err("boom".to_string()));
    assert_eq!((e.event.as_str(), e.data.text_at("message")), ("error", Some("boom")));
    let e = oauth_waiting_event();
    assert_eq!((e.event.as_str(), e.data.text_at("message")), ("waiting", Some("Waiting for authorization...")));
    let e = oauth_closing_event(&Ok(()));
    assert_eq!((e.event.as_str(), e.data.as_object().unwrap().len()), ("success", 0));
    let e = oauth_closing_event(&Err("denied".to_string()));
    assert_eq!((e.event.as_str(), e.data.text_at("message")), ("error", Some("denied")));
}

#[test]
fn format_follows_the_extension() {
    assert_eq!(agent_bridge::config::format_for_extension(Some("json")), ConfigFormat::Json);
    assert_eq!(agent_bridge::config::format_for_extension(Some("JSON")), ConfigFormat::Toml);
    assert_eq!(agent_bridge::config::format_for_extension(Some("toml")), ConfigFormat::Toml);
    assert_eq!(agent_bridge::config::format_for_extension(Some("")), ConfigFormat::Toml);
    assert_eq!(agent_bridge::config::format_for_extension(None), ConfigFormat::Toml);
    assert_eq!(config_format("a.b/config.json"), ConfigFormat::Json);
    assert_eq!(config_format("archive.json.toml"), ConfigFormat::Toml);
    assert_eq!(config_format("dir.json/config"), ConfigFormat::Toml);
    assert_eq!(config_format(".json"), ConfigFormat::Toml);
    assert_eq!(config_format("json"), ConfigFormat::Toml);
    assert_eq!(config_format(""), ConfigFormat::Toml);
}
