use cloneonce::{
    detect_sandbox, infer_compatibility, launcher_script, resolve_data_path,
    uses_shared_security_groups, EnvVars, GenerateShortcutConfig, JsonValue,
};

fn base_config() -> GenerateShortcutConfig {
    GenerateShortcutConfig {
        shortcut_type: "appInstance".into(),
        name: "Test Shortcut".into(),
        target_path: "/Applications/Test.app".into(),
        executable_path: Some("/Applications/Test.app/Contents/MacOS/Test".into()),
        bundle_id: "app.cloneonce.test".into(),
        data_path: "/tmp/cloneonce-test-profile".into(),
        output_dir: None,
        launch_mode: "dockShortcut".into(),
        data_strategy: "automatic".into(),
        command_arguments: String::new(),
        environment: String::new(),
        erase_on_close: false,
        menu_bar_control: false,
        dedicated_dock_icon: true,
    }
}

fn object(members: Vec<(&str, JsonValue)>) -> JsonValue {
    JsonValue::Object(members.into_iter().map(|(k, v)| (k.to_string(), v)).collect())
}

fn strings(items: &[&str]) -> JsonValue {
    JsonValue::Array(items.iter().map(|s| JsonValue::Str(s.to_string())).collect())
}

#[test]
fn no_data_strategy_resolves_to_empty_data_path() {
    let mut config = base_config();
    config.data_strategy = "none".into();

    assert_eq!(resolve_data_path(&config, "Test Shortcut", "/Users/test"), "");
}

#[test]
fn system_launch_mode_uses_macos_open() {
    let mut config = base_config();
    config.launch_mode = "systemLaunch".into();
    config.data_strategy = "homeOverride".into();
    let mut env_vars = EnvVars::new();
    env_vars.insert("CLONEONCE_TEST".into(), "1".into());
    let args: Vec<String> = vec!["--flag".into()];

    let script = launcher_script(
        &config,
        "/Applications/Test.app",
        Some("/Applications/Test.app/Contents/MacOS/Test"),
        "/tmp/cloneonce-test-profile",
        "Generic HOME override",
        &args,
        &env_vars,
    );

    assert!(script.contains("/usr/bin/open -n"));
    assert!(script.contains("OPEN_ENV_ARGS+=(--env \"HOME=$DATA_PATH\")"));
    assert!(script.contains("OPEN_ENV_ARGS+=(--env 'CLONEONCE_TEST=1')"));
    assert!(script.contains("--args \"${ARGS[@]}\""));
    assert!(!script.contains("\"$TARGET\" \"${ARGS[@]}\""));
}

#[test]
fn sandbox_detection_requires_a_true_boolean_entitlement() {
    let enabled: Result<JsonValue, String> =
        Ok(object(vec![("com.apple.security.app-sandbox", JsonValue::Bool(true))]));
    let disabled: Result<JsonValue, String> =
        Ok(object(vec![("com.apple.security.app-sandbox", JsonValue::Bool(false))]));
    let missing: Result<JsonValue, String> =
        Ok(object(vec![("keychain-access-groups", strings(&["TEAM.example"]))]));
    let malformed: Result<JsonValue, String> = Ok(object(vec![(
        "com.apple.security.app-sandbox",
        JsonValue::Str("true".into()),
    )]));
    let read_error: Result<JsonValue, String> = Err("codesign failed".into());

    assert!(detect_sandbox(&enabled));
    assert!(!detect_sandbox(&disabled));
    assert!(!detect_sandbox(&missing));
    assert!(!detect_sandbox(&malformed));
    assert!(!detect_sandbox(&read_error));
}

#[test]
fn false_sandbox_entitlement_keeps_electron_preset_supported() {
    let entitlements: Result<JsonValue, String> =
        Ok(object(vec![("com.apple.security.app-sandbox", JsonValue::Bool(false))]));
    let plist = object(vec![("ElectronAsarIntegrity", object(vec![]))]);

    let sandboxed = detect_sandbox(&entitlements);
    let (compatibility, preset) =
        infer_compatibility("ChatGPT", "com.openai.codex", sandboxed, &plist);

    assert!(!sandboxed);
    assert_eq!(compatibility, "supported");
    assert_eq!(preset, "Electron isolated HOME + --user-data-dir");
}

#[test]
fn shared_security_group_detection_covers_keychain_and_application_groups() {
    let keychain: Result<JsonValue, String> =
        Ok(object(vec![("keychain-access-groups", strings(&["TEAM.example"]))]));
    let application: Result<JsonValue, String> = Ok(object(vec![(
        "com.apple.security.application-groups",
        strings(&["TEAM.example"]),
    )]));
    let empty_groups: Result<JsonValue, String> = Ok(object(vec![
        ("keychain-access-groups", strings(&[])),
        ("com.apple.security.application-groups", strings(&[])),
    ]));

    assert!(uses_shared_security_groups(&keychain));
    assert!(uses_shared_security_groups(&application));
    assert!(!uses_shared_security_groups(&empty_groups));
}

#[test]
fn electron_automatic_dock_launch_isolates_home_xdg_codex_and_browser_profile() {
    let config = base_config();
    let env_vars = EnvVars::new();
    let args: Vec<String> = Vec::new();

    let script = launcher_script(
        &config,
        "/Applications/Codex.app",
        Some("/Applications/Codex.app/Contents/MacOS/Codex"),
        "/tmp/codex-profile",
        "Electron isolated HOME + --user-data-dir",
        &args,
        &env_vars,
    );

    assert!(script.contains("HOME_PATH=\"$DATA_PATH/Home\""));
    assert!(script.contains("BROWSER_PROFILE=\"$DATA_PATH/Browser\""));
    assert!(script.contains("\"$HOME_PATH/.codex\""));
    assert!(script.contains("export HOME=\"$HOME_PATH\""));
    assert!(script.contains("export XDG_CONFIG_HOME=\"$HOME_PATH/.config\""));
    assert!(script.contains("export XDG_CACHE_HOME=\"$HOME_PATH/.cache\""));
    assert!(script.contains("export XDG_DATA_HOME=\"$HOME_PATH/.local/share\""));
    assert!(script.contains("export CODEX_HOME=\"$HOME_PATH/.codex\""));
    assert!(script.contains("ARGS+=(\"--user-data-dir=$BROWSER_PROFILE\")"));
    assert!(!script.contains("OPEN_ENV_ARGS"));
}

#[test]
fn persistent_electron_launcher_never_removes_its_profile() {
    let mut config = base_config();
    config.erase_on_close = false;

    let script = launcher_script(
        &config,
        "/Applications/ChatGPT.app",
        Some("/Applications/ChatGPT.app/Contents/MacOS/ChatGPT"),
        "/Users/test/CloneOnce/Profiles/ChatGPT2",
        "Electron isolated HOME + --user-data-dir",
        &[],
        &EnvVars::new(),
    );

    assert!(!script.contains("rm -rf"));
}

#[test]
fn electron_browser_profile_system_launch_propagates_isolated_environment() {
    let mut config = base_config();
    config.launch_mode = "systemLaunch".into();
    config.data_strategy = "browserProfile".into();
    let env_vars = EnvVars::new();
    let args: Vec<String> = Vec::new();

    let script = launcher_script(
        &config,
        "/Applications/Codex.app",
        Some("/Applications/Codex.app/Contents/MacOS/Codex"),
        "/tmp/codex-profile",
        "Electron isolated HOME + --user-data-dir",
        &args,
        &env_vars,
    );

    assert!(script.contains("OPEN_ENV_ARGS+=(--env \"HOME=$HOME_PATH\")"));
    assert!(script.contains("OPEN_ENV_ARGS+=(--env \"XDG_CONFIG_HOME=$HOME_PATH/.config\")"));
    assert!(script.contains("OPEN_ENV_ARGS+=(--env \"XDG_CACHE_HOME=$HOME_PATH/.cache\")"));
    assert!(script.contains("OPEN_ENV_ARGS+=(--env \"XDG_DATA_HOME=$HOME_PATH/.local/share\")"));
    assert!(script.contains("OPEN_ENV_ARGS+=(--env \"CODEX_HOME=$HOME_PATH/.codex\")"));
    assert!(script.contains("ARGS+=(\"--user-data-dir=$BROWSER_PROFILE\")"));
    assert!(script.contains("/usr/bin/open -n"));
}
