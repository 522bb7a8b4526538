//! Planning and generating macOS `.app` wrapper bundles: launcher scripts,
//! bundle metadata, environment and argument parsing, and target inspection.
pub mod text;
pub mod escape;
pub mod naming;
pub mod paths;
pub mod json;
pub mod inspect;
pub mod env;
pub mod config;
pub mod launcher;
pub mod shortcut;
pub mod generate;
pub mod record;

pub use config::GenerateShortcutConfig;
pub use env::{EnvVars, is_valid_env_key, parse_argument_lines, parse_environment};
pub use generate::{GeneratedShortcut, Generation, Outcome, Phase, ShortcutRecord, Step};
pub use escape::{shell_quote, xml_escape};
pub use inspect::{
    AppInspection, BundleFacts, declared_executable_path, detect_sandbox, entitlement_has_values,
    entitlement_warnings, infer_compatibility, inspect_app_bundle_at, is_app_bundle, plist_string,
    uses_shared_security_groups,
};
pub use json::{
    JsonValue, codesign_failure, info_plist_from_plutil, plist_from_plutil, signing_failure,
};
pub use launcher::launcher_script;
pub use record::{config_json, record_value};
pub use naming::{sanitize_file_name, slugify};
pub use paths::{default_profile_dir, default_shortcuts_dir, expand_home, home_dir_from};
pub use shortcut::{
    ShortcutContents, ShortcutLayout, check_target, duplicate_bundle_error, executable_candidate,
    info_plist, plan_shortcut_layout, resolve_data_path, resolve_executable_path,
    shortcut_contents,
};
