//! The settings of a shortcut, as the user chose them.
use vstd::prelude::*;

verus! {

/// What the user asked for: the kind of shortcut (`appInstance`, `command` or
/// `fileFolder`), its name and target, where its data and bundle go, how it
/// launches, and the extra arguments and environment it passes on.
#[derive(Debug)]
pub struct GenerateShortcutConfig {
    pub shortcut_type: String,
    pub name: String,
    pub target_path: String,
    pub executable_path: Option<String>,
    pub bundle_id: String,
    pub data_path: String,
    pub output_dir: Option<String>,
    pub launch_mode: String,
    pub data_strategy: String,
    pub command_arguments: String,
    pub environment: String,
    pub erase_on_close: bool,
    pub menu_bar_control: bool,
    pub dedicated_dock_icon: bool,
}

} // verus!
