use cloneonce::{
    codesign_failure, detect_sandbox, info_plist_from_plutil, plist_from_plutil, signing_failure,
    uses_shared_security_groups,
    check_target, declared_executable_path, default_profile_dir, default_shortcuts_dir,
    duplicate_bundle_error, entitlement_has_values, entitlement_warnings, executable_candidate,
    expand_home, home_dir_from, infer_compatibility, info_plist, inspect_app_bundle_at,
    is_app_bundle, is_valid_env_key, launcher_script, parse_argument_lines, parse_environment,
    plan_shortcut_layout, plist_string, resolve_data_path, resolve_executable_path,
    sanitize_file_name, shell_quote, shortcut_contents, slugify, xml_escape, AppInspection,
    BundleFacts, EnvVars, GenerateShortcutConfig, JsonValue,
};

fn config() -> GenerateShortcutConfig {
    GenerateShortcutConfig {
        shortcut_type: "appInstance".into(),
        name: "Test Shortcut".into(),
        target_path: "/Applications/Test.app".into(),
        executable_path: Some("/Applications/Test.app/Contents/MacOS/Test".into()),
        bundle_id: "app.cloneonce.test".into(),
        data_path: "/tmp/cloneonce-test-profile".into(),
        output_dir: None,
        launch_mode: "dockShortcut".into(),
        data_strategy: "automatic".into(),
        command_arguments: String::new(),
        environment: String::new(),
        erase_on_close: false,
        menu_bar_control: false,
        dedicated_dock_icon: true,
    }
}

fn object(members: Vec<(&str, JsonValue)>) -> JsonValue {
    JsonValue::Object(members.into_iter().map(|(k, v)| (k.to_string(), v)).collect())
}

fn text(s: &str) -> JsonValue {
    JsonValue::Str(s.to_string())
}

fn env_pairs(vars: &EnvVars) -> Vec<(String, String)> {
    (0..vars.len())
        .map(|i| {
            let (k, v) = vars.entry(i);
            (k.clone(), v.clone())
        })
        .collect()
}

#[test]
fn shell_quote_wraps_and_escapes_single_quotes() {
    assert_eq!(shell_quote(""), "''");
    assert_eq!(shell_quote("abc"), "'abc'");
    assert_eq!(shell_quote("it's"), "'it'\\''s'");
    assert_eq!(shell_quote("''"), "''\\'''\\'''");
}

#[test]
fn xml_escape_replaces_markup_characters() {
    assert_eq!(xml_escape("a<b>&\"c'"), "a&lt;b&gt;&amp;&quot;c&apos;");
    assert_eq!(xml_escape("plain"), "plain");
    assert_eq!(xml_escape("&amp;"), "&amp;amp;");
}

#[test]
fn sanitize_file_name_keeps_safe_characters() {
    assert_eq!(sanitize_file_name("My App/Work:1"), "My App-Work-1");
    assert_eq!(sanitize_file_name("  ..hello.. "), "--hello--");
    assert_eq!(sanitize_file_name("Café"), "Caf-");
    assert_eq!(sanitize_file_name(""), "");
    assert_eq!(sanitize_file_name("\tTabbed"), "-Tabbed");
}

#[test]
fn slugify_lowercases_and_collapses_dashes() {
    assert_eq!(slugify("Test Shortcut"), "test-shortcut");
    assert_eq!(slugify("  Hello,  World!! "), "hello-world");
    assert_eq!(slugify("---"), "");
    assert_eq!(slugify("ÀB"), "b");
    assert_eq!(slugify("Echo Command"), "echo-command");
}

#[test]
fn parse_environment_sorts_and_keeps_last_value() {
    let vars = parse_environment("B=2; A = \"x\"\nB=3").expect("valid environment");
    assert_eq!(
        env_pairs(&vars),
        vec![("A".to_string(), "x".to_string()), ("B".to_string(), "3".to_string())]
    );
    let vars = parse_environment("K=a=b;Q=\"\"x\"\"").expect("valid environment");
    assert_eq!(
        env_pairs(&vars),
        vec![("K".to_string(), "a=b".to_string()), ("Q".to_string(), "x".to_string())]
    );
    assert_eq!(env_pairs(&parse_environment("").expect("empty")), vec![]);
    assert_eq!(env_pairs(&parse_environment(" ; \n ;").expect("blank")), vec![]);
}

#[test]
fn parse_environment_reports_the_first_bad_entry() {
    assert_eq!(
        parse_environment("NOEQ").err().expect("missing ="),
        "Environment entry must be KEY=VALUE: NOEQ"
    );
    assert_eq!(
        parse_environment("1A=3").err().expect("bad key"),
        "Invalid environment key: 1A"
    );
    assert_eq!(
        parse_environment("X=1;bad;2=3").err().expect("first error"),
        "Environment entry must be KEY=VALUE: bad"
    );
    assert_eq!(
        parse_environment("  MY-KEY = v").err().expect("dash in key"),
        "Invalid environment key: MY-KEY"
    );
}

#[test]
fn env_vars_insert_keeps_names_sorted_and_unique() {
    let mut vars = EnvVars::new();
    vars.insert("B".into(), "1".into());
    vars.insert("A".into(), "2".into());
    vars.insert("B".into(), "3".into());
    vars.insert("AB".into(), "4".into());
    assert_eq!(vars.len(), 3);
    assert_eq!(
        env_pairs(&vars),
        vec![
            ("A".to_string(), "2".to_string()),
            ("AB".to_string(), "4".to_string()),
            ("B".to_string(), "3".to_string())
        ]
    );
}

#[test]
fn env_keys_follow_shell_rules() {
    assert!(is_valid_env_key("_A1"));
    assert!(is_valid_env_key("path"));
    assert!(!is_valid_env_key("A-B"));
    assert!(!is_valid_env_key(""));
    assert!(!is_valid_env_key("9"));
}

#[test]
fn argument_lines_drop_blanks_and_comments() {
    assert_eq!(
        parse_argument_lines("  --a \n\n# comment\n  -b  \r\n"),
        vec!["--a".to_string(), "-b".to_string()]
    );
    assert_eq!(parse_argument_lines("hello cloneonce"), vec!["hello cloneonce".to_string()]);
    assert!(parse_argument_lines("").is_empty());
}

#[test]
fn home_paths_resolve_under_home() {
    assert_eq!(expand_home("~", "/Users/me"), "/Users/me");
    assert_eq!(expand_home("~/data", "/Users/me"), "/Users/me/data");
    assert_eq!(expand_home("~other", "/Users/me"), "~other");
    assert_eq!(expand_home("~/x", "/"), "/x");
    assert_eq!(expand_home("~//abs", "/Users/me"), "/abs");
    assert_eq!(default_shortcuts_dir("/Users/me"), "/Users/me/Applications/CloneOnce Shortcuts");
    assert_eq!(
        default_profile_dir("/Users/me", "My App"),
        "/Users/me/CloneOnce/Profiles/My App"
    );
    assert_eq!(default_profile_dir("", "X"), "CloneOnce/Profiles/X");
    assert_eq!(home_dir_from(None), "/tmp");
    assert_eq!(home_dir_from(Some("/Users/me".into())), "/Users/me");
}

#[test]
fn data_path_follows_the_strategy() {
    let mut c = config();
    c.data_path = " ~/data ".into();
    assert_eq!(resolve_data_path(&c, "Test Shortcut", "/Users/me"), "/Users/me/data");
    c.data_path = "   ".into();
    assert_eq!(
        resolve_data_path(&c, "Test Shortcut", "/Users/me"),
        "/Users/me/CloneOnce/Profiles/Test Shortcut"
    );
    c.shortcut_type = "fileFolder".into();
    assert_eq!(resolve_data_path(&c, "Test Shortcut", "/Users/me"), "");
}

#[test]
fn info_plist_names_the_launcher_and_escapes_text() {
    let plist = info_plist("A & B", "app.x");
    assert!(plist.starts_with("<?xml version=\"1.0\" encoding=\"UTF-8\"?>\n<!DOCTYPE plist"));
    assert!(plist.contains("<key>CFBundleIdentifier</key>\n  <string>app.x</string>"));
    assert!(plist.contains("<key>CFBundleName</key>\n  <string>A &amp; B</string>"));
    assert!(plist.contains("<key>CFBundleDisplayName</key>\n  <string>A &amp; B</string>"));
    assert!(plist.contains("<key>CFBundleExecutable</key>\n  <string>launch</string>"));
    assert!(plist.ends_with("  <true/>\n</dict>\n</plist>\n"));
}

#[test]
fn app_bundles_are_directories_named_app() {
    assert!(is_app_bundle("/Applications/Test.app", true));
    assert!(is_app_bundle("/x/Y.APP", true));
    assert!(is_app_bundle("/x/Y.app/", true));
    assert!(!is_app_bundle("/x/Y.app", false));
    assert!(!is_app_bundle("/x/.app", true));
    assert!(!is_app_bundle("/x/Y.apps", true));
    assert!(!is_app_bundle("/x/Y.app/..", true));
}

#[test]
fn non_bundles_are_inspected_as_files() {
    let facts = BundleFacts {
        plist: Err(String::new()),
        executable_exists: false,
        entitlements: Err(String::new()),
    };
    let inspection = inspect_app_bundle_at("/tmp/notes.txt", false, &facts).expect("a file");
    assert_eq!(inspection.name, "notes");
    assert_eq!(inspection.preset, "File or command");
    assert_eq!(inspection.compatibility, "unknown");
    assert!(!inspection.valid);
    assert_eq!(inspection.warnings, vec!["Selected item is not a macOS .app bundle.".to_string()]);
    let root = inspect_app_bundle_at("/", true, &facts).expect("root");
    assert_eq!(root.name, "Unknown");
}

#[test]
fn bundle_inspection_reads_the_property_list() {
    let plist = object(vec![
        ("CFBundleDisplayName", text(" Google Chrome ")),
        ("CFBundleIdentifier", text("com.google.Chrome")),
        ("CFBundleExecutable", text("Google Chrome")),
        ("CFBundleIconFile", text("app.icns")),
    ]);
    let facts = BundleFacts {
        plist: Ok(plist),
        executable_exists: true,
        entitlements: Ok(object(vec![])),
    };
    let i = inspect_app_bundle_at("/Applications/Google Chrome.app", true, &facts).expect("read");
    assert_eq!(i.path, "/Applications/Google Chrome.app");
    assert_eq!(i.name, "Google Chrome");
    assert_eq!(i.bundle_id, "com.google.Chrome");
    assert_eq!(
        i.executable_path.as_deref(),
        Some("/Applications/Google Chrome.app/Contents/MacOS/Google Chrome")
    );
    assert_eq!(i.icon_file.as_deref(), Some("app.icns"));
    assert!(!i.sandboxed);
    assert_eq!(i.compatibility, "supported");
    assert_eq!(i.preset, "Chromium --user-data-dir");
    assert!(i.valid);
    assert!(i.warnings.is_empty());
}

#[test]
fn bundle_inspection_warns_about_what_it_cannot_confirm() {
    let plist = object(vec![("CFBundleName", text("Notes"))]);
    let facts = BundleFacts {
        plist: Ok(plist),
        executable_exists: true,
        entitlements: Err("no signature".into()),
    };
    let i = inspect_app_bundle_at("/Applications/Notes.app", true, &facts).expect("read");
    assert_eq!(i.name, "Notes");
    assert_eq!(i.bundle_id, "");
    assert!(i.executable_path.is_none());
    assert!(!i.valid);
    assert_eq!(
        i.warnings,
        vec![
            "Info.plist does not declare CFBundleExecutable.".to_string(),
            "Code-signing entitlements could not be inspected. Sandbox status and shared login storage could not be confirmed: no signature".to_string(),
            "No app-specific preset found. Start with HOME override or command mode.".to_string(),
        ]
    );
}

#[test]
fn sandboxed_bundles_are_limited_and_unreadable_plists_fail() {
    let plist = object(vec![("CFBundleExecutable", text("Mail"))]);
    let facts = BundleFacts {
        plist: Ok(plist),
        executable_exists: false,
        entitlements: Ok(object(vec![
            ("com.apple.security.app-sandbox", JsonValue::Bool(true)),
            ("keychain-access-groups", text(" TEAM.x ")),
        ])),
    };
    let i = inspect_app_bundle_at("/Applications/Mail.app", true, &facts).expect("read");
    assert_eq!(i.name, "Mail");
    assert!(i.sandboxed);
    assert_eq!(i.compatibility, "limited");
    assert_eq!(i.preset, "Sandboxed app container");
    assert_eq!(
        i.warnings,
        vec![
            "Declared executable could not be found.".to_string(),
            "Sandboxed targets may not support custom HOME data redirection.".to_string(),
            "Target uses shared Keychain or app groups. CloneOnce can isolate files and profiles, but a wrapper cannot guarantee a separate login.".to_string(),
        ]
    );
    let broken = BundleFacts {
        plist: Err("plutil failed".into()),
        executable_exists: false,
        entitlements: Err(String::new()),
    };
    assert_eq!(
        inspect_app_bundle_at("/Applications/Mail.app", true, &broken).err(),
        Some("plutil failed".to_string())
    );
}

#[test]
fn compatibility_matches_names_case_insensitively() {
    let empty = object(vec![]);
    assert_eq!(
        infer_compatibility("FIREFOX Developer", "", false, &empty),
        ("supported".to_string(), "Firefox -profile".to_string())
    );
    assert_eq!(
        infer_compatibility("Browser", "COM.BRAVE.Browser", false, &empty),
        ("supported".to_string(), "Chromium --user-data-dir".to_string())
    );
    assert_eq!(
        infer_compatibility("Editor", "com.example", false, &object(vec![("CrProductDirName", JsonValue::Null)])),
        ("supported".to_string(), "Chromium --user-data-dir".to_string())
    );
    assert_eq!(
        infer_compatibility("Editor", "com.example", false, &empty),
        ("unknown".to_string(), "Generic HOME override".to_string())
    );
    assert_eq!(
        infer_compatibility("Firefox", "org.mozilla", true, &empty),
        ("limited".to_string(), "Sandboxed app container".to_string())
    );
}

#[test]
fn entitlement_values_and_warnings() {
    assert!(!entitlement_has_values(&JsonValue::Null));
    assert!(!entitlement_has_values(&text("   ")));
    assert!(entitlement_has_values(&text("x")));
    assert!(!entitlement_has_values(&JsonValue::Array(vec![])));
    assert!(entitlement_has_values(&JsonValue::Array(vec![JsonValue::Null])));
    assert!(entitlement_has_values(&JsonValue::Bool(false)));
    assert!(entitlement_has_values(&JsonValue::Number("0".into())));
    assert!(entitlement_warnings(&Ok(object(vec![]))).is_empty());
    assert_eq!(
        entitlement_warnings(&Err("boom".into())),
        vec!["Code-signing entitlements could not be inspected. Sandbox status and shared login storage could not be confirmed: boom".to_string()]
    );
}

#[test]
fn plist_strings_are_trimmed_and_must_be_text() {
    let plist = object(vec![
        ("A", text("  value ")),
        ("B", text("   ")),
        ("C", JsonValue::Bool(true)),
    ]);
    assert_eq!(plist_string(&plist, "A").as_deref(), Some("value"));
    assert_eq!(plist_string(&plist, "B"), None);
    assert_eq!(plist_string(&plist, "C"), None);
    assert_eq!(plist_string(&plist, "D"), None);
    assert_eq!(plist_string(&text("x"), "A"), None);
    assert_eq!(
        declared_executable_path("/Apps/X.app/", &object(vec![("CFBundleExecutable", text("X"))])),
        Some("/Apps/X.app/Contents/MacOS/X".to_string())
    );
}

#[test]
fn layout_places_the_bundle_in_the_output_folder() {
    let mut c = config();
    c.name = "  My/App  ".into();
    let layout = plan_shortcut_layout(&c, "/Users/me").expect("named");
    assert_eq!(layout.name, "My/App");
    assert_eq!(layout.target_path, "/Applications/Test.app");
    assert_eq!(layout.output_dir, "/Users/me/Applications/CloneOnce Shortcuts");
    assert_eq!(layout.bundle_path, "/Users/me/Applications/CloneOnce Shortcuts/My-App.app");
    assert_eq!(layout.launcher_path, "/Users/me/Applications/CloneOnce Shortcuts/My-App.app/Contents/MacOS/launch");
    assert_eq!(layout.config_path, "/Users/me/Applications/CloneOnce Shortcuts/My-App.app/Contents/Resources/config.json");
    assert_eq!(layout.icon_path, "/Users/me/Applications/CloneOnce Shortcuts/My-App.app/Contents/Resources/AppIcon.icns");
    assert_eq!(layout.info_plist_path, "/Users/me/Applications/CloneOnce Shortcuts/My-App.app/Contents/Info.plist");
    c.output_dir = Some(" /tmp/out/ ".into());
    let layout = plan_shortcut_layout(&c, "/Users/me").expect("named");
    assert_eq!(layout.bundle_path, "/tmp/out/My-App.app");
    c.output_dir = Some("  ".into());
    let layout = plan_shortcut_layout(&c, "/Users/me").expect("named");
    assert_eq!(layout.output_dir, "/Users/me/Applications/CloneOnce Shortcuts");
    c.name = " \t ".into();
    assert_eq!(
        plan_shortcut_layout(&c, "/Users/me").err(),
        Some("Shortcut name is required.".to_string())
    );
}

#[test]
fn target_and_duplicate_errors() {
    let mut c = config();
    assert!(check_target(&c, true).is_ok());
    assert_eq!(check_target(&c, false).err(), Some("Target path does not exist.".to_string()));
    c.shortcut_type = "command".into();
    assert_eq!(
        check_target(&c, false).err(),
        Some("Command executable does not exist.".to_string())
    );
    assert_eq!(
        duplicate_bundle_error("/tmp/X.app"),
        "/tmp/X.app already exists. Choose a different shortcut name or output folder."
    );
}

#[test]
fn executable_resolution_prefers_the_given_path() {
    let mut c = config();
    c.executable_path = Some("  ".into());
    let inspected = AppInspection {
        path: "/Applications/Test.app".into(),
        name: "Test".into(),
        bundle_id: String::new(),
        executable_path: Some("/Applications/Test.app/Contents/MacOS/Real".into()),
        icon_file: None,
        sandboxed: false,
        compatibility: "unknown".into(),
        preset: "Generic HOME override".into(),
        valid: true,
        warnings: vec![],
    };
    assert_eq!(
        executable_candidate(&c, Some(&inspected)).as_deref(),
        Some("/Applications/Test.app/Contents/MacOS/Real")
    );
    assert_eq!(executable_candidate(&c, None).as_deref(), Some("/Applications/Test.app"));
    assert_eq!(
        resolve_executable_path(&c, None, false).err(),
        Some("Executable path does not exist: /Applications/Test.app".to_string())
    );
    c.executable_path = Some(" /bin/echo ".into());
    assert_eq!(resolve_executable_path(&c, Some(&inspected), true), Ok(Some("/bin/echo".to_string())));
    c.shortcut_type = "fileFolder".into();
    assert_eq!(executable_candidate(&c, None), None);
    assert_eq!(resolve_executable_path(&c, None, false), Ok(None));
}

#[test]
fn command_shortcut_contents() {
    let mut c = config();
    c.shortcut_type = "command".into();
    c.name = "Echo Command".into();
    c.target_path = "/bin/echo".into();
    c.executable_path = Some("/bin/echo".into());
    c.bundle_id = "   ".into();
    c.launch_mode = "command".into();
    c.data_strategy = "none".into();
    c.command_arguments = "hello cloneonce".into();
    let contents =
        shortcut_contents(&c, "Echo Command", "/Users/me", "/bin/echo", None, Some("/bin/echo"))
            .expect("valid");
    assert_eq!(contents.bundle_id, "app.cloneonce.generated.echo-command");
    assert_eq!(contents.data_path, "");
    assert_eq!(contents.preset, "Generic");
    assert_eq!(contents.arguments, vec!["hello cloneonce".to_string()]);
    assert!(contents.launcher.contains("ARGS+=('hello cloneonce')"));
    assert!(contents.info_plist.contains("<string>app.cloneonce.generated.echo-command</string>"));
    assert_eq!(
        contents.launcher,
        "#!/bin/zsh\nset -u\n\nTARGET='/bin/echo'\nDATA_PATH=''\nARGS=()\n\nARGS+=('hello cloneonce')\n\n\"$TARGET\" \"${ARGS[@]}\" &\nPID=$!\nwait \"$PID\"\nSTATUS=$?\nexit \"$STATUS\"\n"
    );
    c.environment = "oops".into();
    assert_eq!(
        shortcut_contents(&c, "Echo Command", "/Users/me", "/bin/echo", None, Some("/bin/echo")).err(),
        Some("Environment entry must be KEY=VALUE: oops".to_string())
    );
}

#[test]
fn file_folder_launcher_opens_the_target() {
    let mut c = config();
    c.shortcut_type = "fileFolder".into();
    let script = launcher_script(&c, "/Users/me/It's here", None, "", "Generic", &[], &EnvVars::new());
    assert_eq!(script, "#!/bin/zsh\nset -u\n/usr/bin/open -- '/Users/me/It'\\''s here'\n");
}

#[test]
fn chromium_launcher_full_text() {
    let c = config();
    let script = launcher_script(&c, "/Applications/App.app", Some("/bin/app"), "/tmp/p", "Generic HOME override", &[], &EnvVars::new());
    assert_eq!(
        script,
        "#!/bin/zsh\nset -u\n\nTARGET='/bin/app'\nDATA_PATH='/tmp/p'\nARGS=()\n\nmkdir -p -- \"$DATA_PATH\"\nARGS+=(\"--user-data-dir=$DATA_PATH\")\n\n\"$TARGET\" \"${ARGS[@]}\" &\nPID=$!\nwait \"$PID\"\nSTATUS=$?\nexit \"$STATUS\"\n"
    );
    let mut erasing = config();
    erasing.erase_on_close = true;
    let script = launcher_script(&erasing, "/Applications/App.app", Some("/bin/app"), "/tmp/p", "Generic HOME override", &[], &EnvVars::new());
    assert!(script.ends_with("STATUS=$?\nrm -rf -- \"$DATA_PATH\"\nexit \"$STATUS\"\n"));
}

#[test]
fn launcher_arguments_expand_the_data_path() {
    let c = config();
    let args = vec!["--dir=${DATA_PATH}/x".to_string(), "-profile foo".to_string(), "$DATA_PATH".to_string()];
    let script = launcher_script(&c, "/Applications/App.app", Some("/bin/app"), "/tmp/p", "Generic", &args, &EnvVars::new());
    assert!(script.contains("ARGS+=('--dir=/tmp/p/x')\n"));
    assert!(script.contains("ARGS+=('-profile foo')\n"));
    assert!(script.contains("ARGS+=('/tmp/p')\n"));
    assert!(!script.contains("--user-data-dir=$DATA_PATH"));
}

#[test]
fn firefox_launcher_uses_a_profile_folder() {
    let c = config();
    let script = launcher_script(&c, "/Applications/Firefox.app", Some("/bin/ff"), "/tmp/p", "Firefox -profile", &[], &EnvVars::new());
    assert!(script.contains("ARGS+=(\"-profile\" \"$DATA_PATH\" \"-new-instance\")\n"));
    assert!(!script.contains("--user-data-dir"));
}

#[test]
fn system_launch_skips_erase_on_close() {
    let mut c = config();
    c.launch_mode = "systemLaunch".into();
    c.erase_on_close = true;
    let mut env = EnvVars::new();
    env.insert("A".into(), "x y".into());
    let script = launcher_script(&c, "/Applications/App.app", Some("/bin/app"), "/tmp/p", "Generic", &[], &env);
    assert!(script.contains("OPEN_ENV_ARGS=()\n"));
    assert!(script.contains("export A='x y'\nOPEN_ENV_ARGS+=(--env 'A=x y')\n"));
    assert!(script.contains("  /usr/bin/open -n \"${OPEN_ENV_ARGS[@]}\" '/Applications/App.app' --args \"${ARGS[@]}\"\nelse\n  /usr/bin/open -n \"${OPEN_ENV_ARGS[@]}\" '/Applications/App.app'\nfi\n"));
    assert!(script.ends_with("STATUS=$?\n# System Launch Mode does not wait for app exit, so erase-on-close is skipped here.\nexit \"$STATUS\"\n"));
    assert!(!script.contains("rm -rf"));
    let mut command = c;
    command.shortcut_type = "command".into();
    let script = launcher_script(&command, "/bin/app", Some("/bin/app"), "/tmp/p", "Generic", &[], &EnvVars::new());
    assert!(!script.contains("/usr/bin/open"));
    assert!(script.contains("rm -rf -- \"$DATA_PATH\"\n"));
}

#[test]
fn slugs_keep_letters_and_digits_and_are_stable() {
    let slug = slugify("  Hello, World -- 2024!! ");
    assert_eq!(slug, "hello-world-2024");
    assert_eq!(slug.replace('-', ""), "helloworld2024");
    assert_eq!(slugify(&slug), slug);
    assert_eq!(slugify("---"), "");
    assert_eq!(slugify(""), "");
}

#[test]
fn sanitized_names_are_short_and_stable() {
    let name = " ..My/App: v1.2.. ";
    let clean = sanitize_file_name(name);
    assert_eq!(clean, "--My-App- v1-2--");
    assert!(clean.chars().count() <= name.chars().count());
    assert_eq!(sanitize_file_name(&clean), clean);
}

#[test]
fn xml_entities_read_back() {
    let text = "a&b <c> \"d\" 'e' &amp;";
    let escaped = xml_escape(text);
    assert_eq!(escaped, "a&amp;b &lt;c&gt; &quot;d&quot; &apos;e&apos; &amp;amp;");
    let back = escaped
        .replace("&lt;", "<")
        .replace("&gt;", ">")
        .replace("&quot;", "\"")
        .replace("&apos;", "'")
        .replace("&amp;", "&");
    assert_eq!(back, text);
}

#[test]
fn plutil_output_is_read_as_json() {
    let plist = info_plist_from_plutil(true, br#"{"CFBundleName": " Codex ", "N": 3}"#, "")
        .expect("info plist");
    assert_eq!(plist_string(&plist, "CFBundleName"), Some("Codex".to_string()));
    assert!(matches!(plist.get("N"), Some(JsonValue::Number(n)) if n == "3"));

    assert_eq!(
        info_plist_from_plutil(false, b"", "  no such file \n").err(),
        Some("no such file".to_string())
    );
    let broken = info_plist_from_plutil(true, b"not json", "").err().expect("parse error");
    assert!(broken.starts_with("Could not parse Info.plist: "));
    assert!(broken.len() > "Could not parse Info.plist: ".len());
}

#[test]
fn plutil_failures_name_the_description() {
    assert_eq!(
        plist_from_plutil(false, b"", "  ", "test entitlements").err(),
        Some("Could not parse test entitlements.".to_string())
    );
    assert_eq!(
        plist_from_plutil(false, b"", " bad plist\n", "test entitlements").err(),
        Some("Could not parse test entitlements: bad plist".to_string())
    );
    let broken = plist_from_plutil(true, b"{", "", "test entitlements").err().expect("error");
    assert!(broken.starts_with("Could not parse test entitlements: "));
    let read = plist_from_plutil(
        true,
        br#"{"com.apple.security.app-sandbox": true, "keychain-access-groups": ["TEAM.example"]}"#,
        "",
        "test entitlements",
    );
    assert!(detect_sandbox(&read));
    assert!(uses_shared_security_groups(&read));
}

#[test]
fn codesign_messages() {
    assert_eq!(codesign_failure("  ", "exit status: 1"), "codesign exited with status exit status: 1");
    assert_eq!(codesign_failure(" not signed \n", "exit status: 1"), "not signed");
    assert_eq!(signing_failure(" denied\n"), "Could not sign generated app: denied");
}
