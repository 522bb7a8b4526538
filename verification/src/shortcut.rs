//! What a generated wrapper bundle holds and where it goes.
use vstd::prelude::*;
use crate::config::GenerateShortcutConfig;
use crate::env::{self, EnvVars, parse_argument_lines, parse_environment};
use crate::escape::{self, xml_escape};
use crate::inspect::AppInspection;
use crate::launcher::{self, launcher_script};
use crate::naming::{self, sanitize_file_name, slugify};
use crate::paths::{self, default_profile_dir, default_shortcuts_dir, expand_home, path_join};
use crate::text::{self, chars_of, owned, str_eq, trim_str};

verus! {

pub const PLIST_HEAD: &'static str = "<?xml version=\"1.0\" encoding=\"UTF-8\"?>\n<!DOCTYPE plist PUBLIC \"-//Apple//DTD PLIST 1.0//EN\" \"http://www.apple.com/DTDs/PropertyList-1.0.dtd\">\n<plist version=\"1.0\">\n<dict>\n  <key>CFBundleDevelopmentRegion</key>\n  <string>en</string>\n  <key>CFBundleExecutable</key>\n  <string>launch</string>\n  <key>CFBundleIconFile</key>\n  <string>AppIcon</string>\n  <key>CFBundleIdentifier</key>\n  <string>";

pub const PLIST_AFTER_IDENTIFIER: &'static str = "</string>\n  <key>CFBundleInfoDictionaryVersion</key>\n  <string>6.0</string>\n  <key>CFBundleName</key>\n  <string>";

pub const PLIST_AFTER_NAME: &'static str = "</string>\n  <key>CFBundleDisplayName</key>\n  <string>";

pub const PLIST_TAIL: &'static str = "</string>\n  <key>CFBundlePackageType</key>\n  <string>APPL</string>\n  <key>CFBundleShortVersionString</key>\n  <string>0.1.0</string>\n  <key>CFBundleVersion</key>\n  <string>1</string>\n  <key>LSMinimumSystemVersion</key>\n  <string>10.15</string>\n  <key>NSHighResolutionCapable</key>\n  <true/>\n</dict>\n</plist>\n";

/// The `Info.plist` of a wrapper: it runs `launch`, shows `AppIcon`, and carries
/// the bundle identifier and the name, escaped for XML.
pub open spec fn plist_text(name: Seq<char>, bundle_id: Seq<char>) -> Seq<char> {
    PLIST_HEAD@ + escape::xml_escaped(bundle_id) + PLIST_AFTER_IDENTIFIER@ + escape::xml_escaped(
        name,
    ) + PLIST_AFTER_NAME@ + escape::xml_escaped(name) + PLIST_TAIL@
}

/// Where a shortcut keeps its data: nowhere for a file or folder shortcut or the
/// `none` strategy; else the given path, trimmed and with `~` resolved; else the
/// default profile folder.
pub open spec fn data_path_for(config: GenerateShortcutConfig, name: Seq<char>, home: Seq<char>) -> Seq<char> {
    if config.shortcut_type@ == "fileFolder"@ || config.data_strategy@ == "none"@ {
        Seq::empty()
    } else if text::trim(config.data_path@).len() > 0 {
        paths::expanded_home(text::trim(config.data_path@), home)
    } else {
        paths::profile_dir(home, name)
    }
}

/// The executable found by an inspection, if any.
pub open spec fn inspected_executable(inspection: Option<&AppInspection>) -> Option<Seq<char>> {
    match inspection {
        Some(i) => text::opt_view(i.executable_path),
        None => None,
    }
}

/// The executable a shortcut runs: the given path when it is not blank, else the
/// one the inspection found, else the target path, trimmed.
pub open spec fn candidate(config: GenerateShortcutConfig, inspected: Option<Seq<char>>) -> Seq<char> {
    match config.executable_path {
        Some(p) => if text::trim(p@).len() > 0 {
            text::trim(p@)
        } else {
            match inspected {
                Some(e) => e,
                None => text::trim(config.target_path@),
            }
        },
        None => match inspected {
            Some(e) => e,
            None => text::trim(config.target_path@),
        },
    }
}

/// The executable to record: none for a file or folder shortcut; the candidate
/// when it exists; else an error that names it.
pub open spec fn resolved_executable(
    config: GenerateShortcutConfig,
    inspected: Option<Seq<char>>,
    exists: bool,
) -> Result<Option<Seq<char>>, Seq<char>> {
    if config.shortcut_type@ == "fileFolder"@ {
        Ok(None)
    } else if !exists {
        Err("Executable path does not exist: "@ + candidate(config, inspected))
    } else {
        Ok(Some(candidate(config, inspected)))
    }
}

/// The generated bundle identifier, from a shortcut's name.
pub open spec fn generated_bundle_id(name: Seq<char>) -> Seq<char> {
    "app.cloneonce.generated."@ + naming::slug(name)
}

/// The bundle identifier: the given one, trimmed, when it is not blank.
pub open spec fn bundle_id_for(config: GenerateShortcutConfig, name: Seq<char>) -> Seq<char> {
    if text::trim(config.bundle_id@).len() > 0 {
        text::trim(config.bundle_id@)
    } else {
        generated_bundle_id(name)
    }
}

pub open spec fn output_dir_for(config: GenerateShortcutConfig, home: Seq<char>) -> Seq<char> {
    match config.output_dir {
        Some(d) => if text::trim(d@).len() > 0 {
            text::trim(d@)
        } else {
            paths::shortcuts_dir(home)
        },
        None => paths::shortcuts_dir(home),
    }
}

/// The paths of a wrapper bundle.
pub struct ShortcutLayout {
    pub name: String,
    pub target_path: String,
    pub output_dir: String,
    pub bundle_path: String,
    pub contents_dir: String,
    pub macos_dir: String,
    pub resources_dir: String,
    pub launcher_path: String,
    pub config_path: String,
    pub icon_path: String,
    pub info_plist_path: String,
}

pub ghost struct ShortcutLayoutView {
    pub name: Seq<char>,
    pub target_path: Seq<char>,
    pub output_dir: Seq<char>,
    pub bundle_path: Seq<char>,
    pub contents_dir: Seq<char>,
    pub macos_dir: Seq<char>,
    pub resources_dir: Seq<char>,
    pub launcher_path: Seq<char>,
    pub config_path: Seq<char>,
    pub icon_path: Seq<char>,
    pub info_plist_path: Seq<char>,
}

impl View for ShortcutLayout {
    type V = ShortcutLayoutView;

    open spec fn view(&self) -> ShortcutLayoutView {
        ShortcutLayoutView {
            name: self.name@,
            target_path: self.target_path@,
            output_dir: self.output_dir@,
            bundle_path: self.bundle_path@,
            contents_dir: self.contents_dir@,
            macos_dir: self.macos_dir@,
            resources_dir: self.resources_dir@,
            launcher_path: self.launcher_path@,
            config_path: self.config_path@,
            icon_path: self.icon_path@,
            info_plist_path: self.info_plist_path@,
        }
    }
}

/// The layout of a shortcut: its trimmed name and target, the output folder (the
/// given one, trimmed, or the default), the bundle `<sanitized name>.app` in it,
/// and the files inside the bundle. A blank name is refused.
pub open spec fn layout_for(config: GenerateShortcutConfig, home: Seq<char>) -> Result<
    ShortcutLayoutView,
    Seq<char>,
> {
    let name = text::trim(config.name@);
    if name.len() == 0 {
        Err("Shortcut name is required."@)
    } else {
        let output_dir = output_dir_for(config, home);
        let bundle_path = paths::joined(output_dir, naming::sanitized(name) + ".app"@);
        let contents_dir = paths::joined(bundle_path, "Contents"@);
        let macos_dir = paths::joined(contents_dir, "MacOS"@);
        let resources_dir = paths::joined(contents_dir, "Resources"@);
        Ok(
            ShortcutLayoutView {
                name: name,
                target_path: text::trim(config.target_path@),
                output_dir: output_dir,
                bundle_path: bundle_path,
                contents_dir: contents_dir,
                macos_dir: macos_dir,
                resources_dir: resources_dir,
                launcher_path: paths::joined(macos_dir, "launch"@),
                config_path: paths::joined(resources_dir, "config.json"@),
                icon_path: paths::joined(resources_dir, "AppIcon.icns"@),
                info_plist_path: paths::joined(contents_dir, "Info.plist"@),
            },
        )
    }
}

/// A missing target: a command names its executable, other shortcuts their target.
pub open spec fn target_check_for(config: GenerateShortcutConfig, exists: bool) -> Result<
    (),
    Seq<char>,
> {
    if exists {
        Ok(())
    } else if config.shortcut_type@ == "command"@ {
        Err("Command executable does not exist."@)
    } else {
        Err("Target path does not exist."@)
    }
}

pub open spec fn duplicate_text(bundle_path: Seq<char>) -> Seq<char> {
    bundle_path + " already exists. Choose a different shortcut name or output folder."@
}

/// The generated files and settings of a shortcut.
pub struct ShortcutContents {
    pub bundle_id: String,
    pub data_path: String,
    pub environment: EnvVars,
    pub arguments: Vec<String>,
    pub preset: String,
    pub info_plist: String,
    pub launcher: String,
}

pub ghost struct ShortcutContentsView {
    pub bundle_id: Seq<char>,
    pub data_path: Seq<char>,
    pub environment: Seq<(Seq<char>, Seq<char>)>,
    pub arguments: Seq<Seq<char>>,
    pub preset: Seq<char>,
    pub info_plist: Seq<char>,
    pub launcher: Seq<char>,
}

impl View for ShortcutContents {
    type V = ShortcutContentsView;

    open spec fn view(&self) -> ShortcutContentsView {
        ShortcutContentsView {
            bundle_id: self.bundle_id@,
            data_path: self.data_path@,
            environment: self.environment@,
            arguments: text::string_views(self.arguments@),
            preset: self.preset@,
            info_plist: self.info_plist@,
            launcher: self.launcher@,
        }
    }
}

/// The preset of an inspected app, or `Generic`.
pub open spec fn preset_for(inspection: Option<&AppInspection>) -> Seq<char> {
    match inspection {
        Some(i) => i.preset@,
        None => "Generic"@,
    }
}

/// The contents of a shortcut named `name`: its bundle identifier, data path,
/// environment (whose errors refuse the shortcut), arguments, `Info.plist` and
/// launcher script.
pub open spec fn contents_for(
    config: GenerateShortcutConfig,
    name: Seq<char>,
    home: Seq<char>,
    target_path: Seq<char>,
    inspection: Option<&AppInspection>,
    executable: Option<Seq<char>>,
) -> Result<ShortcutContentsView, Seq<char>> {
    let bundle_id = bundle_id_for(config, name);
    let data_path = data_path_for(config, name, home);
    match env::parsed_environment(config.environment@) {
        Err(e) => Err(e),
        Ok(environment) => {
            let arguments = env::parsed_arguments(config.command_arguments@);
            let preset = preset_for(inspection);
            Ok(
                ShortcutContentsView {
                    bundle_id: bundle_id,
                    data_path: data_path,
                    environment: environment,
                    arguments: arguments,
                    preset: preset,
                    info_plist: plist_text(name, bundle_id),
                    launcher: launcher::launcher_text(
                        config,
                        target_path,
                        executable,
                        data_path,
                        text::lowercase(preset),
                        arguments,
                        environment,
                    ),
                },
            )
        },
    }
}

/// The `Info.plist` of a wrapper.
pub fn info_plist(name: &str, bundle_id: &str) -> (r: String)
    ensures
        r@ == plist_text(name@, bundle_id@),
{
    let mut out = owned(PLIST_HEAD);
    let id = xml_escape(bundle_id);
    out.append(id.as_str());
    out.append(PLIST_AFTER_IDENTIFIER);
    let escaped = xml_escape(name);
    out.append(escaped.as_str());
    out.append(PLIST_AFTER_NAME);
    out.append(escaped.as_str());
    out.append(PLIST_TAIL);
    out
}

/// Where a shortcut keeps its data, with `home` as the home folder.
pub fn resolve_data_path(config: &GenerateShortcutConfig, shortcut_name: &str, home: &str) -> (r:
    String)
    ensures
        r@ == data_path_for(*config, shortcut_name@, home@),
{
    if str_eq(config.shortcut_type.as_str(), "fileFolder") || str_eq(
        config.data_strategy.as_str(),
        "none",
    ) {
        return String::new();
    }
    let trimmed = trim_str(config.data_path.as_str());
    let t = chars_of(trimmed.as_str());
    if t.len() > 0 {
        return expand_home(trimmed.as_str(), home);
    }
    default_profile_dir(home, shortcut_name)
}

/// The executable a shortcut would run, or nothing for a file or folder shortcut.
pub fn executable_candidate(config: &GenerateShortcutConfig, inspection: Option<&AppInspection>) -> (r:
    Option<String>)
    ensures
        match r {
            Some(c) => config.shortcut_type@ != "fileFolder"@ && c@ == candidate(
                *config,
                inspected_executable(inspection),
            ),
            None => config.shortcut_type@ == "fileFolder"@,
        },
{
    if str_eq(config.shortcut_type.as_str(), "fileFolder") {
        return None;
    }
    if let Some(p) = &config.executable_path {
        let t = trim_str(p.as_str());
        if chars_of(t.as_str()).len() > 0 {
            return Some(t);
        }
    }
    match inspection {
        Some(item) => match &item.executable_path {
            Some(e) => {
                return Some(e.clone());
            },
            None => {},
        },
        None => {},
    }
    Some(trim_str(config.target_path.as_str()))
}

/// The executable to record for a shortcut; `candidate_exists` says whether the
/// candidate (`executable_candidate`) exists on disk.
pub fn resolve_executable_path(
    config: &GenerateShortcutConfig,
    inspection: Option<&AppInspection>,
    candidate_exists: bool,
) -> (r: Result<Option<String>, String>)
    ensures
        match r {
            Ok(Some(p)) => resolved_executable(*config, inspected_executable(inspection), candidate_exists)
                == Ok::<Option<Seq<char>>, Seq<char>>(Some(p@)),
            Ok(None) => resolved_executable(*config, inspected_executable(inspection), candidate_exists)
                == Ok::<Option<Seq<char>>, Seq<char>>(None),
            Err(e) => resolved_executable(*config, inspected_executable(inspection), candidate_exists)
                == Err::<Option<Seq<char>>, Seq<char>>(e@),
        },
{
    match executable_candidate(config, inspection) {
        None => Ok(None),
        Some(c) => if candidate_exists {
            Ok(Some(c))
        } else {
            let mut msg = owned("Executable path does not exist: ");
            msg.append(c.as_str());
            Err(msg)
        },
    }
}

/// Checks that the target exists, as `exists` reports.
pub fn check_target(config: &GenerateShortcutConfig, exists: bool) -> (r: Result<(), String>)
    ensures
        match r {
            Ok(()) => target_check_for(*config, exists) == Ok::<(), Seq<char>>(()),
            Err(e) => target_check_for(*config, exists) == Err::<(), Seq<char>>(e@),
        },
{
    if exists {
        Ok(())
    } else if str_eq(config.shortcut_type.as_str(), "command") {
        Err(owned("Command executable does not exist."))
    } else {
        Err(owned("Target path does not exist."))
    }
}

/// The error for a bundle that already exists.
pub fn duplicate_bundle_error(bundle_path: &str) -> (r: String)
    ensures
        r@ == duplicate_text(bundle_path@),
{
    let mut msg = owned(bundle_path);
    msg.append(" already exists. Choose a different shortcut name or output folder.");
    msg
}

/// The paths of a shortcut's bundle, with `home` as the home folder.
pub fn plan_shortcut_layout(config: &GenerateShortcutConfig, home: &str) -> (r: Result<
    ShortcutLayout,
    String,
>)
    ensures
        match r {
            Ok(l) => layout_for(*config, home@) == Ok::<ShortcutLayoutView, Seq<char>>(l@),
            Err(e) => layout_for(*config, home@) == Err::<ShortcutLayoutView, Seq<char>>(e@),
        },
{
    let name = trim_str(config.name.as_str());
    if chars_of(name.as_str()).len() == 0 {
        return Err(owned("Shortcut name is required."));
    }
    let output_dir = match &config.output_dir {
        Some(d) => {
            let t = trim_str(d.as_str());
            if chars_of(t.as_str()).len() > 0 {
                t
            } else {
                default_shortcuts_dir(home)
            }
        },
        None => default_shortcuts_dir(home),
    };
    let mut file = sanitize_file_name(name.as_str());
    file.append(".app");
    let bundle_path = path_join(output_dir.as_str(), file.as_str());
    let contents_dir = path_join(bundle_path.as_str(), "Contents");
    let macos_dir = path_join(contents_dir.as_str(), "MacOS");
    let resources_dir = path_join(contents_dir.as_str(), "Resources");
    let launcher_path = path_join(macos_dir.as_str(), "launch");
    let config_path = path_join(resources_dir.as_str(), "config.json");
    let icon_path = path_join(resources_dir.as_str(), "AppIcon.icns");
    let info_plist_path = path_join(contents_dir.as_str(), "Info.plist");
    let layout = ShortcutLayout {
        name,
        target_path: trim_str(config.target_path.as_str()),
        output_dir,
        bundle_path,
        contents_dir,
        macos_dir,
        resources_dir,
        launcher_path,
        config_path,
        icon_path,
        info_plist_path,
    };
    assert(layout@ =~= layout_for(*config, home@)->Ok_0);
    Ok(layout)
}

/// The bundle identifier of a shortcut named `name`.
pub fn resolve_bundle_id(config: &GenerateShortcutConfig, name: &str) -> (r: String)
    ensures
        r@ == bundle_id_for(*config, name@),
{
    let given = trim_str(config.bundle_id.as_str());
    if chars_of(given.as_str()).len() > 0 {
        return given;
    }
    let mut id = owned("app.cloneonce.generated.");
    let slug = slugify(name);
    id.append(slug.as_str());
    id
}

/// The generated contents of a shortcut named `name`, whose target is
/// `target_path` and whose resolved executable is `executable_path`.
pub fn shortcut_contents(
    config: &GenerateShortcutConfig,
    name: &str,
    home: &str,
    target_path: &str,
    inspection: Option<&AppInspection>,
    executable_path: Option<&str>,
) -> (r: Result<ShortcutContents, String>)
    ensures
        match r {
            Ok(c) => contents_for(
                *config,
                name@,
                home@,
                target_path@,
                inspection,
                launcher::opt_str_view(executable_path),
            ) == Ok::<ShortcutContentsView, Seq<char>>(c@),
            Err(e) => contents_for(
                *config,
                name@,
                home@,
                target_path@,
                inspection,
                launcher::opt_str_view(executable_path),
            ) == Err::<ShortcutContentsView, Seq<char>>(e@),
        },
{
    let bundle_id = resolve_bundle_id(config, name);
    let data_path = resolve_data_path(config, name, home);
    let environment = match parse_environment(config.environment.as_str()) {
        Ok(v) => v,
        Err(e) => {
            return Err(e);
        },
    };
    let arguments = parse_argument_lines(config.command_arguments.as_str());
    let preset = match inspection {
        Some(item) => item.preset.clone(),
        None => owned("Generic"),
    };
    let plist = info_plist(name, bundle_id.as_str());
    let launcher = launcher_script(
        config,
        target_path,
        executable_path,
        data_path.as_str(),
        preset.as_str(),
        arguments.as_slice(),
        &environment,
    );
    let contents = ShortcutContents {
        bundle_id,
        data_path,
        environment,
        arguments,
        preset,
        info_plist: plist,
        launcher,
    };
    assert(contents@ =~= contents_for(
        *config,
        name@,
        home@,
        target_path@,
        inspection,
        launcher::opt_str_view(executable_path),
    )->Ok_0);
    Ok(contents)
}

/// A shortcut's bundle lies directly in its output folder: the bundle path is the
/// output folder, a separator where one is needed, and a file name ending in
/// `.app` that holds no `/`.
pub proof fn bundle_lies_directly_in_output_dir(config: GenerateShortcutConfig, home: Seq<char>)
    ensures
        layout_for(config, home) matches Ok(l) ==> {
            let file = naming::sanitized(l.name) + ".app"@;
            &&& forall|i: int| 0 <= i < file.len() ==> #[trigger] file[i] != '/'
            &&& text::ends_with(file, ".app"@)
            &&& (l.bundle_path == l.output_dir + file || l.bundle_path == l.output_dir + seq!['/']
                + file)
        },
{
    if let Ok(l) = layout_for(config, home) {
        reveal_strlit(".app");
        let name = naming::sanitized(l.name);
        let file = name + ".app"@;
        naming::sanitized_names_are_safe(l.name);
        assert forall|i: int| 0 <= i < file.len() implies #[trigger] file[i] != '/' by {
            if i < name.len() {
                assert(naming::file_safe(name[i]));
            }
        }
        assert(file.skip(file.len() - 4) =~= ".app"@);
    }
}

/// Joining a relative name onto a folder under `root` gives a path under `root`.
proof fn lemma_joined_under(base: Seq<char>, rel: Seq<char>, root: Seq<char>)
    requires
        text::starts_with(base, root),
        base.len() > 0,
        base.last() != '/',
        rel.len() > 0,
        rel[0] != '/',
    ensures
        text::starts_with(paths::joined(base, rel), root),
        paths::joined(base, rel).last() == rel.last(),
{
    let j = paths::joined(base, rel);
    assert(j == base + seq!['/'] + rel);
    assert(j.subrange(0, root.len() as int) =~= base.subrange(0, root.len() as int));
}

/// Every folder and file of a wrapper lies inside its bundle: under the bundle
/// path and a `/`.
pub proof fn bundle_files_lie_inside_the_bundle(config: GenerateShortcutConfig, home: Seq<char>)
    ensures
        layout_for(config, home) matches Ok(l) ==> {
            let root = l.bundle_path + seq!['/'];
            &&& text::starts_with(l.contents_dir, root)
            &&& text::starts_with(l.macos_dir, root)
            &&& text::starts_with(l.resources_dir, root)
            &&& text::starts_with(l.launcher_path, root)
            &&& text::starts_with(l.config_path, root)
            &&& text::starts_with(l.icon_path, root)
            &&& text::starts_with(l.info_plist_path, root)
        },
{
    if let Ok(l) = layout_for(config, home) {
        reveal_strlit(".app");
        reveal_strlit("Contents");
        reveal_strlit("MacOS");
        reveal_strlit("Resources");
        reveal_strlit("launch");
        reveal_strlit("config.json");
        reveal_strlit("AppIcon.icns");
        reveal_strlit("Info.plist");
        bundle_lies_directly_in_output_dir(config, home);
        let file = naming::sanitized(l.name) + ".app"@;
        let bundle = l.bundle_path;
        let root = bundle + seq!['/'];
        assert(bundle.last() == file.last());
        assert(bundle.last() == 'p');
        let contents = l.contents_dir;
        assert(contents == bundle + seq!['/'] + "Contents"@);
        assert(contents.subrange(0, root.len() as int) =~= root);
        assert(contents.last() == 's');
        lemma_joined_under(contents, "MacOS"@, root);
        lemma_joined_under(contents, "Resources"@, root);
        lemma_joined_under(contents, "Info.plist"@, root);
        lemma_joined_under(l.macos_dir, "launch"@, root);
        lemma_joined_under(l.resources_dir, "config.json"@, root);
        lemma_joined_under(l.resources_dir, "AppIcon.icns"@, root);
    }
}

/// With no data strategy a shortcut has no data folder: its data path is empty
/// and its launcher creates and erases none.
pub proof fn no_data_strategy_keeps_no_data(
    config: GenerateShortcutConfig,
    name: Seq<char>,
    home: Seq<char>,
    data: Seq<char>,
)
    requires
        config.data_strategy@ == "none"@,
    ensures
        data_path_for(config, name, home) == Seq::<char>::empty(),
        !launcher::creates_data(config, data),
{
}

} // verus!
