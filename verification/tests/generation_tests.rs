use cloneonce::{
    config_json, record_value, AppInspection, EnvVars, GenerateShortcutConfig, GeneratedShortcut, Generation,
    Outcome, ShortcutRecord, Step,
};
use serde_json::Value;
use std::collections::{BTreeMap, BTreeSet};

fn base_config() -> GenerateShortcutConfig {
    GenerateShortcutConfig {
        shortcut_type: "appInstance".into(),
        name: "Test Shortcut".into(),
        target_path: "/Applications/Test.app".into(),
        executable_path: Some("/Applications/Test.app/Contents/MacOS/Test".into()),
        bundle_id: "app.cloneonce.test".into(),
        data_path: "/tmp/cloneonce-test-profile".into(),
        output_dir: None,
        launch_mode: "dockShortcut".into(),
        data_strategy: "automatic".into(),
        command_arguments: String::new(),
        environment: String::new(),
        erase_on_close: false,
        menu_bar_control: false,
        dedicated_dock_icon: true,
    }
}

fn command_config(output_dir: &str) -> GenerateShortcutConfig {
    let mut config = base_config();
    config.shortcut_type = "command".into();
    config.name = "Echo Command".into();
    config.target_path = "/bin/echo".into();
    config.executable_path = Some("/bin/echo".into());
    config.bundle_id = "app.cloneonce.test.echo".into();
    config.output_dir = Some(output_dir.into());
    config.launch_mode = "command".into();
    config.data_strategy = "none".into();
    config.command_arguments = "hello cloneonce".into();
    config
}

/// A file system kept in memory, with the steps performed on it.
struct World {
    dirs: BTreeSet<String>,
    files: BTreeMap<String, String>,
    steps: Vec<String>,
    failing: Option<String>,
    inspection: Option<AppInspection>,
}

impl World {
    fn new() -> World {
        World {
            dirs: BTreeSet::new(),
            files: BTreeMap::new(),
            steps: Vec::new(),
            failing: None,
            inspection: None,
        }
    }

    fn has(&self, path: &str) -> bool {
        self.dirs.contains(path) || self.files.contains_key(path)
    }

    fn create_dirs(&mut self, path: &str) -> Result<(), String> {
        if self.failing.as_deref() == Some(path) {
            return Err("permission denied".into());
        }
        let mut prefix = String::new();
        for part in path.split('/').filter(|part| !part.is_empty()) {
            prefix.push('/');
            prefix.push_str(part);
            self.dirs.insert(prefix.clone());
        }
        Ok(())
    }

    fn write(&mut self, path: &str, text: String) -> Result<(), String> {
        if self.failing.as_deref() == Some(path) {
            return Err("disk full".into());
        }
        self.files.insert(path.to_string(), text);
        Ok(())
    }
}

fn done(result: Result<(), String>) -> Outcome {
    match result {
        Ok(()) => Outcome::Done,
        Err(error) => Outcome::Failed(error),
    }
}

fn generate(
    world: &mut World,
    config: GenerateShortcutConfig,
    home: &str,
) -> Result<GeneratedShortcut, String> {
    let (mut generation, mut step) = Generation::start(config, home.to_string());
    loop {
        let outcome = match step {
            Step::CheckTarget(path) => {
                world.steps.push(format!("check target {path}"));
                Outcome::Exists(world.has(&path))
            }
            Step::CreateOutputDir(path) => {
                world.steps.push(format!("create {path}"));
                done(world.create_dirs(&path))
            }
            Step::CheckBundle(path) => {
                world.steps.push(format!("check bundle {path}"));
                Outcome::Exists(world.has(&path))
            }
            Step::CreateFolders(first, second) => {
                world.steps.push(format!("create {first} {second}"));
                done(world.create_dirs(&first).and_then(|_| world.create_dirs(&second)))
            }
            Step::WriteIcon(path) => {
                world.steps.push(format!("icon {path}"));
                done(world.write(&path, String::new()))
            }
            Step::CheckDirectory(path) => {
                world.steps.push(format!("is dir {path}"));
                Outcome::IsDirectory(world.dirs.contains(&path))
            }
            Step::Inspect(path) => {
                world.steps.push(format!("inspect {path}"));
                Outcome::Inspected(world.inspection.take().ok_or_else(|| "unreadable".to_string()))
            }
            Step::CheckExecutable(path) => {
                world.steps.push(format!("check executable {path}"));
                Outcome::Exists(world.has(&path))
            }
            Step::WriteInfoPlist(path, text) => {
                world.steps.push(format!("write {path}"));
                done(world.write(&path, text))
            }
            Step::WriteConfig(path, text) => {
                world.steps.push(format!("write {path}"));
                done(world.write(&path, text))
            }
            Step::WriteLauncher(path, text) => {
                world.steps.push(format!("write {path}"));
                done(world.write(&path, text))
            }
            Step::MakeExecutable(path) => {
                world.steps.push(format!("chmod {path}"));
                Outcome::Done
            }
            Step::Sign(path) => {
                world.steps.push(format!("sign {path}"));
                Outcome::Done
            }
            Step::Finish(generated) => return Ok(generated),
            Step::Fail(error) => return Err(error),
        };
        assert!(generation.accepts(&outcome));
        let (next, next_step) = generation.advance(outcome);
        generation = next;
        step = next_step;
    }
}

#[test]
fn command_shortcut_generation_writes_bundle_and_rejects_duplicate() {
    let temp_dir = "/tmp/cloneonce-test-generation";
    let mut world = World::new();
    world.create_dirs(temp_dir).expect("create temp output dir");
    world.create_dirs("/bin").expect("create bin");
    world.write("/bin/echo", String::new()).expect("create echo");

    let config = command_config(temp_dir);
    let generated =
        generate(&mut world, command_config(temp_dir), "/Users/test").expect("generate command shortcut");
    let bundle_path = generated.path.clone();
    let launcher_path = format!("{bundle_path}/Contents/MacOS/launch");
    let config_path = format!("{bundle_path}/Contents/Resources/config.json");

    assert!(world.has(&bundle_path));
    assert!(world.has(&launcher_path));
    assert!(world.has(&config_path));
    assert_eq!(generated.data_path, "");
    assert!(world.files[&launcher_path].contains("ARGS+=('hello cloneonce')"));
    assert!(world.files[&config_path].contains(r#""dataPath": """#));

    let duplicate_error =
        generate(&mut world, config, "/Users/test").expect_err("duplicate shortcut name should fail");
    assert!(duplicate_error.contains("already exists"));
}

#[test]
fn generation_reports_the_planned_bundle() {
    let mut world = World::new();
    world.create_dirs("/bin").expect("create bin");
    world.write("/bin/echo", String::new()).expect("create echo");

    let generated = generate(&mut world, command_config("/out"), "/Users/test").expect("generate");

    assert_eq!(generated.name, "Echo Command");
    assert_eq!(generated.path, "/out/Echo Command.app");
    assert_eq!(generated.bundle_id, "app.cloneonce.test.echo");
    assert_eq!(generated.config_path, "/out/Echo Command.app/Contents/Resources/config.json");
    assert_eq!(generated.launcher_path, "/out/Echo Command.app/Contents/MacOS/launch");
    assert!(generated.created);
    assert_eq!(
        world.steps,
        vec![
            "check target /bin/echo",
            "create /out",
            "check bundle /out/Echo Command.app",
            "create /out/Echo Command.app/Contents/MacOS /out/Echo Command.app/Contents/Resources",
            "icon /out/Echo Command.app/Contents/Resources/AppIcon.icns",
            "is dir /bin/echo",
            "check executable /bin/echo",
            "write /out/Echo Command.app/Contents/Info.plist",
            "write /out/Echo Command.app/Contents/Resources/config.json",
            "write /out/Echo Command.app/Contents/MacOS/launch",
            "chmod /out/Echo Command.app/Contents/MacOS/launch",
            "sign /out/Echo Command.app",
        ]
    );
    assert!(world.files["/out/Echo Command.app/Contents/Info.plist"]
        .contains("<string>app.cloneonce.test.echo</string>"));
}

#[test]
fn existing_bundle_stops_before_anything_is_written_into_it() {
    let mut world = World::new();
    world.create_dirs("/bin").expect("create bin");
    world.write("/bin/echo", String::new()).expect("create echo");
    world.create_dirs("/out/Echo Command.app").expect("create bundle");

    let error = generate(&mut world, command_config("/out"), "/Users/test").expect_err("duplicate");

    assert_eq!(
        error,
        "/out/Echo Command.app already exists. Choose a different shortcut name or output folder."
    );
    assert_eq!(world.steps.last().map(String::as_str), Some("check bundle /out/Echo Command.app"));
    assert!(world.files.keys().all(|path| !path.starts_with("/out/Echo Command.app")));
}

#[test]
fn generation_refuses_blank_names_and_missing_targets() {
    let mut world = World::new();
    let mut blank = command_config("/out");
    blank.name = "   ".into();
    assert_eq!(
        generate(&mut world, blank, "/Users/test").expect_err("blank name"),
        "Shortcut name is required."
    );
    assert!(world.steps.is_empty());

    assert_eq!(
        generate(&mut world, command_config("/out"), "/Users/test").expect_err("no echo"),
        "Command executable does not exist."
    );
    let mut app = base_config();
    app.output_dir = Some("/out".into());
    assert_eq!(
        generate(&mut world, app, "/Users/test").expect_err("no app"),
        "Target path does not exist."
    );
    assert!(world.dirs.is_empty());
}

#[test]
fn failed_work_ends_the_generation_with_its_error() {
    let mut world = World::new();
    world.create_dirs("/bin").expect("create bin");
    world.write("/bin/echo", String::new()).expect("create echo");
    world.failing = Some("/out".into());
    assert_eq!(
        generate(&mut world, command_config("/out"), "/Users/test").expect_err("output"),
        "Could not create output folder /out: permission denied"
    );

    let mut world = World::new();
    world.create_dirs("/bin").expect("create bin");
    world.write("/bin/echo", String::new()).expect("create echo");
    world.failing = Some("/out/Echo Command.app/Contents/MacOS/launch".into());
    assert_eq!(
        generate(&mut world, command_config("/out"), "/Users/test").expect_err("launcher"),
        "disk full"
    );
    assert!(!world.steps.iter().any(|step| step.starts_with("sign")));
}

#[test]
fn missing_executable_and_bad_environment_stop_the_generation() {
    let mut world = World::new();
    world.create_dirs("/bin").expect("create bin");
    world.write("/bin/echo", String::new()).expect("create echo");
    let mut config = command_config("/out");
    config.executable_path = Some("/bin/missing".into());
    assert_eq!(
        generate(&mut world, config, "/Users/test").expect_err("executable"),
        "Executable path does not exist: /bin/missing"
    );

    let mut world = World::new();
    world.create_dirs("/bin").expect("create bin");
    world.write("/bin/echo", String::new()).expect("create echo");
    let mut config = command_config("/out");
    config.environment = "1BAD=x".into();
    assert_eq!(
        generate(&mut world, config, "/Users/test").expect_err("environment"),
        "Invalid environment key: 1BAD"
    );
    assert!(!world.files.contains_key("/out/Echo Command.app/Contents/Info.plist"));
}

#[test]
fn app_bundles_are_inspected_for_their_executable_and_preset() {
    let mut world = World::new();
    world.create_dirs("/Applications/Codex.app").expect("create app");
    world
        .write("/Applications/Codex.app/Contents/MacOS/Codex", String::new())
        .expect("create executable");
    world.inspection = Some(AppInspection {
        path: "/Applications/Codex.app".into(),
        name: "Codex".into(),
        bundle_id: "com.openai.codex".into(),
        executable_path: Some("/Applications/Codex.app/Contents/MacOS/Codex".into()),
        icon_file: None,
        sandboxed: false,
        compatibility: "supported".into(),
        preset: "Electron isolated HOME + --user-data-dir".into(),
        valid: true,
        warnings: Vec::new(),
    });
    let mut config = base_config();
    config.name = "Codex Work".into();
    config.target_path = "/Applications/Codex.app".into();
    config.executable_path = None;
    config.bundle_id = String::new();
    config.data_path = String::new();

    let generated = generate(&mut world, config, "/Users/test").expect("generate app shortcut");

    assert!(world.steps.contains(&"inspect /Applications/Codex.app".to_string()));
    assert!(world
        .steps
        .contains(&"check executable /Applications/Codex.app/Contents/MacOS/Codex".to_string()));
    assert_eq!(generated.path, "/Users/test/Applications/CloneOnce Shortcuts/Codex Work.app");
    assert_eq!(generated.bundle_id, "app.cloneonce.generated.codex-work");
    assert_eq!(generated.data_path, "/Users/test/CloneOnce/Profiles/Codex Work");
    let launcher = &world.files[&generated.launcher_path];
    assert!(launcher.contains("TARGET='/Applications/Codex.app/Contents/MacOS/Codex'"));
    assert!(launcher.contains("export CODEX_HOME=\"$HOME_PATH/.codex\""));
}

#[test]
fn file_shortcuts_skip_the_executable_check() {
    let mut world = World::new();
    world.create_dirs("/Users/test/Documents").expect("create folder");
    let mut config = base_config();
    config.shortcut_type = "fileFolder".into();
    config.name = "Documents".into();
    config.target_path = " /Users/test/Documents ".into();
    config.output_dir = Some("/out".into());

    let generated = generate(&mut world, config, "/Users/test").expect("generate file shortcut");

    assert!(!world.steps.iter().any(|step| step.starts_with("check executable")));
    assert_eq!(generated.data_path, "");
    assert_eq!(
        world.files[&generated.launcher_path],
        "#!/bin/zsh\nset -u\n/usr/bin/open -- '/Users/test/Documents'\n"
    );
    assert!(world.files[&generated.config_path].contains("\"executablePath\": null"));
}

fn record(environment: EnvVars, arguments: Vec<String>, executable: Option<&str>) -> ShortcutRecord {
    ShortcutRecord {
        name: "Say \"hi\"\\ now".into(),
        target_path: "/bin/echo".into(),
        executable_path: executable.map(String::from),
        bundle_id: "app.cloneonce.test.echo".into(),
        data_path: "line\nbreak\ttab\u{1}".into(),
        shortcut_type: "command".into(),
        launch_mode: "command".into(),
        data_strategy: "none".into(),
        erase_on_close: true,
        menu_bar_control: false,
        dedicated_dock_icon: true,
        environment,
        arguments,
    }
}

fn serde_text(record: &ShortcutRecord) -> String {
    let mut environment = serde_json::Map::new();
    for i in 0..record.environment.len() {
        let (key, value) = record.environment.entry(i);
        environment.insert(key.clone(), Value::String(value.clone()));
    }
    let mut map = serde_json::Map::new();
    map.insert("name".into(), Value::String(record.name.clone()));
    map.insert("targetPath".into(), Value::String(record.target_path.clone()));
    map.insert(
        "executablePath".into(),
        match &record.executable_path {
            Some(path) => Value::String(path.clone()),
            None => Value::Null,
        },
    );
    map.insert("bundleId".into(), Value::String(record.bundle_id.clone()));
    map.insert("dataPath".into(), Value::String(record.data_path.clone()));
    map.insert("shortcutType".into(), Value::String(record.shortcut_type.clone()));
    map.insert("launchMode".into(), Value::String(record.launch_mode.clone()));
    map.insert("dataStrategy".into(), Value::String(record.data_strategy.clone()));
    map.insert("eraseOnClose".into(), Value::Bool(record.erase_on_close));
    map.insert("menuBarControl".into(), Value::Bool(record.menu_bar_control));
    map.insert("dedicatedDockIcon".into(), Value::Bool(record.dedicated_dock_icon));
    map.insert("environment".into(), Value::Object(environment));
    map.insert(
        "arguments".into(),
        Value::Array(record.arguments.iter().cloned().map(Value::String).collect()),
    );
    serde_json::to_string_pretty(&Value::Object(map)).expect("serialize record")
}

#[test]
fn config_json_matches_pretty_printed_json() {
    let mut environment = EnvVars::new();
    environment.insert("ZED".into(), "last".into());
    environment.insert("A_KEY".into(), "quote\"d".into());
    let full = record(environment, vec!["--flag".into(), "two words".into()], Some("/bin/echo"));
    assert_eq!(config_json(&full), Ok(serde_text(&full)));

    let bare = record(EnvVars::new(), Vec::new(), None);
    assert_eq!(config_json(&bare), Ok(serde_text(&bare)));
    let bare_text = config_json(&bare).expect("bare config");
    assert!(bare_text.contains("\"environment\": {}"));
    assert!(bare_text.contains("\"arguments\": []"));
    assert!(bare_text.contains("\"executablePath\": null"));
    assert!(bare_text.contains("\"dataPath\": \"line\\nbreak\\ttab\\u0001\""));
}

#[test]
fn config_json_exact_text() {
    let mut r = record(EnvVars::new(), vec!["hello cloneonce".into()], Some("/bin/echo"));
    r.name = "Echo Command".into();
    r.data_path = String::new();
    r.erase_on_close = false;
    assert_eq!(
        config_json(&r).expect("config text"),
        "{\n  \"arguments\": [\n    \"hello cloneonce\"\n  ],\n  \"bundleId\": \"app.cloneonce.test.echo\",\n  \"dataPath\": \"\",\n  \"dataStrategy\": \"none\",\n  \"dedicatedDockIcon\": true,\n  \"environment\": {},\n  \"eraseOnClose\": false,\n  \"executablePath\": \"/bin/echo\",\n  \"launchMode\": \"command\",\n  \"menuBarControl\": false,\n  \"name\": \"Echo Command\",\n  \"shortcutType\": \"command\",\n  \"targetPath\": \"/bin/echo\"\n}"
    );
}

#[test]
fn settings_object_lists_the_record() {
    let r = record(EnvVars::new(), vec!["a".into()], None);
    let value = record_value(&r);
    assert!(matches!(value.get("dataPath"), Some(cloneonce::JsonValue::Str(s)) if s == "line\nbreak\ttab\u{1}"));
    assert!(matches!(value.get("executablePath"), Some(cloneonce::JsonValue::Null)));
    assert!(matches!(value.get("eraseOnClose"), Some(cloneonce::JsonValue::Bool(true))));
    assert!(matches!(value.get("arguments"), Some(cloneonce::JsonValue::Array(items)) if items.len() == 1));
}
