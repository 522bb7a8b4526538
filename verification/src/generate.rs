//! Generating a wrapper bundle as a sequence of file-system steps. The library
//! decides each step from the answers to the steps before it; the caller performs
//! the steps and reports what happened.
use vstd::prelude::*;
use crate::config::GenerateShortcutConfig;
use crate::env::EnvVars;
use crate::inspect::{self, AppInspection, is_app_bundle};
use crate::launcher;
use crate::record::{self, config_json};
use crate::shortcut::{
    self, ShortcutContents, ShortcutLayout, check_target, duplicate_bundle_error,
    executable_candidate, plan_shortcut_layout, resolve_executable_path, shortcut_contents,
};
use crate::text::{self, owned, str_eq};

verus! {

/// What the generation of a wrapper reports when it succeeds.
#[derive(Debug)]
pub struct GeneratedShortcut {
    pub name: String,
    pub path: String,
    pub bundle_id: String,
    pub config_path: String,
    pub launcher_path: String,
    pub data_path: String,
    pub created: bool,
}

/// The settings a wrapper records in its `config.json`.
pub struct ShortcutRecord {
    pub name: String,
    pub target_path: String,
    pub executable_path: Option<String>,
    pub bundle_id: String,
    pub data_path: String,
    pub shortcut_type: String,
    pub launch_mode: String,
    pub data_strategy: String,
    pub erase_on_close: bool,
    pub menu_bar_control: bool,
    pub dedicated_dock_icon: bool,
    pub environment: EnvVars,
    pub arguments: Vec<String>,
}

/// A piece of work for the caller, or the end of the generation.
pub enum Step {
    /// Report whether the target path exists (`Outcome::Exists`).
    CheckTarget(String),
    /// Create the output folder and its parents (`Outcome::Done` or `Outcome::Failed`).
    CreateOutputDir(String),
    /// Report whether the bundle path exists (`Outcome::Exists`).
    CheckBundle(String),
    /// Create the two folders with their parents, in order, stopping at the first
    /// error (`Outcome::Done` or `Outcome::Failed`).
    CreateFolders(String, String),
    /// Write the wrapper icon to the path (`Outcome::Done` or `Outcome::Failed`).
    WriteIcon(String),
    /// Report whether the target path is a directory (`Outcome::IsDirectory`).
    CheckDirectory(String),
    /// Inspect the app bundle at the path (`Outcome::Inspected`).
    Inspect(String),
    /// Report whether the executable exists (`Outcome::Exists`).
    CheckExecutable(String),
    /// Write the text to the path (`Outcome::Done` or `Outcome::Failed`).
    WriteInfoPlist(String, String),
    /// Write the `config.json` text to the path (`Outcome::Done` or
    /// `Outcome::Failed`).
    WriteConfig(String, String),
    /// Write the launcher script to the path (`Outcome::Done` or `Outcome::Failed`).
    WriteLauncher(String, String),
    /// Give the launcher the mode `755` (`Outcome::Done` or `Outcome::Failed`).
    MakeExecutable(String),
    /// Sign the bundle ad hoc (`Outcome::Done` or `Outcome::Failed`).
    Sign(String),
    /// The wrapper is complete.
    Finish(GeneratedShortcut),
    /// The generation stopped with this error.
    Fail(String),
}

/// What became of a step.
pub enum Outcome {
    Exists(bool),
    IsDirectory(bool),
    Inspected(Result<AppInspection, String>),
    Done,
    Failed(String),
}

/// The step a generation waits on, with what it has decided so far.
pub enum Phase {
    AwaitTarget(ShortcutLayout),
    AwaitOutputDir(ShortcutLayout),
    AwaitBundle(ShortcutLayout),
    AwaitFolders(ShortcutLayout),
    AwaitIcon(ShortcutLayout),
    AwaitKind(ShortcutLayout),
    AwaitInspection(ShortcutLayout),
    AwaitExecutable(ShortcutLayout, Option<AppInspection>),
    AwaitInfoPlist(ShortcutLayout, Option<String>, ShortcutContents),
    /// The layout, bundle identifier, data path and launcher script.
    AwaitConfig(ShortcutLayout, String, String, String),
    /// The layout, bundle identifier and data path.
    AwaitLauncher(ShortcutLayout, String, String),
    AwaitPermissions(ShortcutLayout, String, String),
    AwaitSignature(ShortcutLayout, String, String),
    Over,
}

/// The generation of one wrapper, for a configuration and a home folder.
pub struct Generation {
    pub config: GenerateShortcutConfig,
    pub home: String,
    pub phase: Phase,
}

/// The generation ends with an error.
pub open spec fn stopped(after: Phase, step: Step, msg: Seq<char>) -> bool {
    after is Over && (step matches Step::Fail(m) && m@ == msg)
}

/// A piece of work finished: the generation goes on as given, or ends with the
/// error of the work.
pub open spec fn continues(outcome: Outcome, after: Phase, step: Step, next: Phase, next_step: Step) -> bool {
    match outcome {
        Outcome::Failed(e) => stopped(after, step, e@),
        _ => after == next && step == next_step,
    }
}

pub open spec fn borrowed(o: &Option<AppInspection>) -> Option<&AppInspection> {
    match o {
        Some(i) => Some(i),
        None => None,
    }
}

/// A successful inspection; a failed one counts as none.
pub open spec fn inspected(r: Result<AppInspection, String>) -> Option<AppInspection> {
    match r {
        Ok(a) => Some(a),
        Err(_) => None,
    }
}

/// The record of a wrapper's settings.
pub open spec fn record(
    config: GenerateShortcutConfig,
    l: ShortcutLayout,
    executable: Option<String>,
    c: ShortcutContents,
) -> ShortcutRecord {
    ShortcutRecord {
        name: l.name,
        target_path: l.target_path,
        executable_path: executable,
        bundle_id: c.bundle_id,
        data_path: c.data_path,
        shortcut_type: config.shortcut_type,
        launch_mode: config.launch_mode,
        data_strategy: config.data_strategy,
        erase_on_close: config.erase_on_close,
        menu_bar_control: config.menu_bar_control,
        dedicated_dock_icon: config.dedicated_dock_icon,
        environment: c.environment,
        arguments: c.arguments,
    }
}

/// The first step: the layout of the bundle, whose target is checked first; or the
/// refusal of a blank name.
pub open spec fn begins(config: GenerateShortcutConfig, home: Seq<char>, after: Phase, step: Step) -> bool {
    match shortcut::layout_for(config, home) {
        Err(e) => stopped(after, step, e),
        Ok(v) => after matches Phase::AwaitTarget(l) && l@ == v && step == Step::CheckTarget(
            l.target_path,
        ),
    }
}

/// With the executable resolved: the contents of the wrapper, whose `Info.plist`
/// is written first; or the error that refuses them.
pub open spec fn writes_info_plist(
    config: GenerateShortcutConfig,
    home: Seq<char>,
    l: ShortcutLayout,
    insp: Option<AppInspection>,
    executable: Option<Seq<char>>,
    after: Phase,
    step: Step,
) -> bool {
    match shortcut::contents_for(config, l.name@, home, l.target_path@, borrowed(&insp), executable) {
        Err(e) => stopped(after, step, e),
        Ok(cv) => after matches Phase::AwaitInfoPlist(l2, x, c) && l2 == l && text::opt_view(x)
            == executable && c@ == cv && step == Step::WriteInfoPlist(l.info_plist_path, c.info_plist),
    }
}

/// After the inspection (if any): a file or folder shortcut has no executable;
/// any other shortcut has its candidate executable checked.
pub open spec fn resolves_executable(
    config: GenerateShortcutConfig,
    home: Seq<char>,
    l: ShortcutLayout,
    insp: Option<AppInspection>,
    after: Phase,
    step: Step,
) -> bool {
    if config.shortcut_type@ == "fileFolder"@ {
        writes_info_plist(config, home, l, insp, None, after, step)
    } else {
        after == Phase::AwaitExecutable(l, insp) && (step matches Step::CheckExecutable(c) && c@
            == shortcut::candidate(config, shortcut::inspected_executable(borrowed(&insp))))
    }
}

/// The answers a phase waits for.
pub open spec fn expects(phase: Phase, outcome: Outcome) -> bool {
    match phase {
        Phase::AwaitTarget(_) => outcome is Exists,
        Phase::AwaitBundle(_) => outcome is Exists,
        Phase::AwaitExecutable(_, _) => outcome is Exists,
        Phase::AwaitKind(_) => outcome is IsDirectory,
        Phase::AwaitInspection(_) => outcome is Inspected,
        Phase::Over => false,
        _ => outcome is Done || outcome is Failed,
    }
}

/// How a generation in the phase `before` goes on after `outcome`: the phase
/// `after` and the next step.
pub open spec fn advances(
    config: GenerateShortcutConfig,
    home: Seq<char>,
    before: Phase,
    outcome: Outcome,
    after: Phase,
    step: Step,
) -> bool {
    match before {
        Phase::AwaitTarget(l) => outcome matches Outcome::Exists(found) && match shortcut::target_check_for(config, found) {
            Err(e) => stopped(after, step, e),
            Ok(_) => after == Phase::AwaitOutputDir(l) && step == Step::CreateOutputDir(l.output_dir),
        },
        Phase::AwaitOutputDir(l) => match outcome {
            Outcome::Failed(e) => stopped(
                after,
                step,
                "Could not create output folder "@ + l.output_dir@ + ": "@ + e@,
            ),
            _ => after == Phase::AwaitBundle(l) && step == Step::CheckBundle(l.bundle_path),
        },
        Phase::AwaitBundle(l) => outcome matches Outcome::Exists(found) && if found {
            stopped(after, step, shortcut::duplicate_text(l.bundle_path@))
        } else {
            after == Phase::AwaitFolders(l) && step == Step::CreateFolders(l.macos_dir, l.resources_dir)
        },
        Phase::AwaitFolders(l) => continues(
            outcome,
            after,
            step,
            Phase::AwaitIcon(l),
            Step::WriteIcon(l.icon_path),
        ),
        Phase::AwaitIcon(l) => continues(
            outcome,
            after,
            step,
            Phase::AwaitKind(l),
            Step::CheckDirectory(l.target_path),
        ),
        Phase::AwaitKind(l) => outcome matches Outcome::IsDirectory(dir) && if inspect::app_bundle(
            l.target_path@,
            dir,
        ) {
            after == Phase::AwaitInspection(l) && step == Step::Inspect(l.target_path)
        } else {
            resolves_executable(config, home, l, None, after, step)
        },
        Phase::AwaitInspection(l) => outcome matches Outcome::Inspected(found) && resolves_executable(
            config,
            home,
            l,
            inspected(found),
            after,
            step,
        ),
        Phase::AwaitExecutable(l, insp) => outcome matches Outcome::Exists(found) && match shortcut::resolved_executable(
            config,
            shortcut::inspected_executable(borrowed(&insp)),
            found,
        ) {
            Err(e) => stopped(after, step, e),
            Ok(executable) => writes_info_plist(config, home, l, insp, executable, after, step),
        },
        Phase::AwaitInfoPlist(l, x, c) => match outcome {
            Outcome::Failed(e) => stopped(after, step, e@),
            _ => {
                ||| (after is Over && (step matches Step::Fail(m) && record::config_file(
                    record(config, l, x, c),
                    Err(m@),
                )))
                ||| (after == Phase::AwaitConfig(l, c.bundle_id, c.data_path, c.launcher) && (
                step matches Step::WriteConfig(p, t) && p == l.config_path && record::config_file(
                    record(config, l, x, c),
                    Ok(t@),
                )))
            },
        },
        Phase::AwaitConfig(l, b, d, s) => continues(
            outcome,
            after,
            step,
            Phase::AwaitLauncher(l, b, d),
            Step::WriteLauncher(l.launcher_path, s),
        ),
        Phase::AwaitLauncher(l, b, d) => continues(
            outcome,
            after,
            step,
            Phase::AwaitPermissions(l, b, d),
            Step::MakeExecutable(l.launcher_path),
        ),
        Phase::AwaitPermissions(l, b, d) => continues(
            outcome,
            after,
            step,
            Phase::AwaitSignature(l, b, d),
            Step::Sign(l.bundle_path),
        ),
        Phase::AwaitSignature(l, b, d) => continues(
            outcome,
            after,
            step,
            Phase::Over,
            Step::Finish(
                GeneratedShortcut {
                    name: l.name,
                    path: l.bundle_path,
                    bundle_id: b,
                    config_path: l.config_path,
                    launcher_path: l.launcher_path,
                    data_path: d,
                    created: true,
                },
            ),
        ),
        Phase::Over => false,
    }
}

fn fail(msg: String) -> (r: (Phase, Step))
    ensures
        stopped(r.0, r.1, msg@),
{
    (Phase::Over, Step::Fail(msg))
}

fn info_plist_step(
    config: &GenerateShortcutConfig,
    home: &str,
    l: ShortcutLayout,
    insp: Option<AppInspection>,
    executable: Option<String>,
) -> (r: (Phase, Step))
    ensures
        writes_info_plist(*config, home@, l, insp, text::opt_view(executable), r.0, r.1),
{
    let found: Option<&AppInspection> = match &insp {
        Some(i) => Some(i),
        None => None,
    };
    let exe: Option<&str> = match &executable {
        Some(s) => Some(s.as_str()),
        None => None,
    };
    assert(launcher::opt_str_view(exe) == text::opt_view(executable));
    let made = shortcut_contents(
        config,
        l.name.as_str(),
        home,
        l.target_path.as_str(),
        found,
        exe,
    );
    match made {
        Err(e) => fail(e),
        Ok(c) => {
            let path = l.info_plist_path.clone();
            let text = c.info_plist.clone();
            (Phase::AwaitInfoPlist(l, executable, c), Step::WriteInfoPlist(path, text))
        },
    }
}

fn executable_step(
    config: &GenerateShortcutConfig,
    home: &str,
    l: ShortcutLayout,
    insp: Option<AppInspection>,
) -> (r: (Phase, Step))
    ensures
        resolves_executable(*config, home@, l, insp, r.0, r.1),
{
    if str_eq(config.shortcut_type.as_str(), "fileFolder") {
        return info_plist_step(config, home, l, insp, None);
    }
    let found: Option<&AppInspection> = match &insp {
        Some(i) => Some(i),
        None => None,
    };
    match executable_candidate(config, found) {
        Some(c) => (Phase::AwaitExecutable(l, insp), Step::CheckExecutable(c)),
        None => {
            proof {
                assert(false);
            }
            fail(String::new())
        },
    }
}

fn next(config: &GenerateShortcutConfig, home: &str, phase: Phase, outcome: Outcome) -> (r: (
    Phase,
    Step,
))
    requires
        expects(phase, outcome),
    ensures
        advances(*config, home@, phase, outcome, r.0, r.1),
{
    match phase {
        Phase::AwaitTarget(l) => {
            let found = match outcome {
                Outcome::Exists(b) => b,
                _ => false,
            };
            match check_target(config, found) {
                Err(e) => fail(e),
                Ok(()) => {
                    let dir = l.output_dir.clone();
                    (Phase::AwaitOutputDir(l), Step::CreateOutputDir(dir))
                },
            }
        },
        Phase::AwaitOutputDir(l) => match outcome {
            Outcome::Failed(e) => {
                let mut msg = owned("Could not create output folder ");
                msg.append(l.output_dir.as_str());
                msg.append(": ");
                msg.append(e.as_str());
                fail(msg)
            },
            _ => {
                let path = l.bundle_path.clone();
                (Phase::AwaitBundle(l), Step::CheckBundle(path))
            },
        },
        Phase::AwaitBundle(l) => {
            let found = match outcome {
                Outcome::Exists(b) => b,
                _ => false,
            };
            if found {
                fail(duplicate_bundle_error(l.bundle_path.as_str()))
            } else {
                let macos = l.macos_dir.clone();
                let resources = l.resources_dir.clone();
                (Phase::AwaitFolders(l), Step::CreateFolders(macos, resources))
            }
        },
        Phase::AwaitFolders(l) => match outcome {
            Outcome::Failed(e) => fail(e),
            _ => {
                let path = l.icon_path.clone();
                (Phase::AwaitIcon(l), Step::WriteIcon(path))
            },
        },
        Phase::AwaitIcon(l) => match outcome {
            Outcome::Failed(e) => fail(e),
            _ => {
                let path = l.target_path.clone();
                (Phase::AwaitKind(l), Step::CheckDirectory(path))
            },
        },
        Phase::AwaitKind(l) => {
            let dir = match outcome {
                Outcome::IsDirectory(b) => b,
                _ => false,
            };
            if is_app_bundle(l.target_path.as_str(), dir) {
                let path = l.target_path.clone();
                (Phase::AwaitInspection(l), Step::Inspect(path))
            } else {
                executable_step(config, home, l, None)
            }
        },
        Phase::AwaitInspection(l) => {
            let insp = match outcome {
                Outcome::Inspected(Ok(a)) => Some(a),
                _ => None,
            };
            executable_step(config, home, l, insp)
        },
        Phase::AwaitExecutable(l, insp) => {
            let found = match outcome {
                Outcome::Exists(b) => b,
                _ => false,
            };
            let resolved = {
                let seen: Option<&AppInspection> = match &insp {
                    Some(i) => Some(i),
                    None => None,
                };
                resolve_executable_path(config, seen, found)
            };
            match resolved {
                Err(e) => fail(e),
                Ok(executable) => info_plist_step(config, home, l, insp, executable),
            }
        },
        Phase::AwaitInfoPlist(l, x, c) => match outcome {
            Outcome::Failed(e) => fail(e),
            _ => {
                let ShortcutContents {
                    bundle_id,
                    data_path,
                    environment,
                    arguments,
                    preset,
                    info_plist,
                    launcher,
                } = c;
                let rec = ShortcutRecord {
                    name: l.name.clone(),
                    target_path: l.target_path.clone(),
                    executable_path: x,
                    bundle_id: bundle_id.clone(),
                    data_path: data_path.clone(),
                    shortcut_type: config.shortcut_type.clone(),
                    launch_mode: config.launch_mode.clone(),
                    data_strategy: config.data_strategy.clone(),
                    erase_on_close: config.erase_on_close,
                    menu_bar_control: config.menu_bar_control,
                    dedicated_dock_icon: config.dedicated_dock_icon,
                    environment,
                    arguments,
                };
                match config_json(&rec) {
                    Err(e) => fail(e),
                    Ok(text) => {
                        let path = l.config_path.clone();
                        (
                            Phase::AwaitConfig(l, bundle_id, data_path, launcher),
                            Step::WriteConfig(path, text),
                        )
                    },
                }
            },
        },
        Phase::AwaitConfig(l, b, d, s) => match outcome {
            Outcome::Failed(e) => fail(e),
            _ => {
                let path = l.launcher_path.clone();
                (Phase::AwaitLauncher(l, b, d), Step::WriteLauncher(path, s))
            },
        },
        Phase::AwaitLauncher(l, b, d) => match outcome {
            Outcome::Failed(e) => fail(e),
            _ => {
                let path = l.launcher_path.clone();
                (Phase::AwaitPermissions(l, b, d), Step::MakeExecutable(path))
            },
        },
        Phase::AwaitPermissions(l, b, d) => match outcome {
            Outcome::Failed(e) => fail(e),
            _ => {
                let path = l.bundle_path.clone();
                (Phase::AwaitSignature(l, b, d), Step::Sign(path))
            },
        },
        Phase::AwaitSignature(l, b, d) => match outcome {
            Outcome::Failed(e) => fail(e),
            _ => {
                let ShortcutLayout { name, bundle_path, config_path, launcher_path, .. } = l;
                (
                    Phase::Over,
                    Step::Finish(
                        GeneratedShortcut {
                            name,
                            path: bundle_path,
                            bundle_id: b,
                            config_path,
                            launcher_path,
                            data_path: d,
                            created: true,
                        },
                    ),
                )
            },
        },
        Phase::Over => fail(String::new()),
    }
}

impl Generation {
    /// Starts generating the wrapper that `config` describes, with `home` as the
    /// home folder: the first step, or the refusal of the configuration.
    pub fn start(config: GenerateShortcutConfig, home: String) -> (r: (Generation, Step))
        ensures
            r.0.config == config,
            r.0.home == home,
            begins(config, home@, r.0.phase, r.1),
    {
        let (phase, step) = match plan_shortcut_layout(&config, home.as_str()) {
            Err(e) => fail(e),
            Ok(l) => {
                let path = l.target_path.clone();
                (Phase::AwaitTarget(l), Step::CheckTarget(path))
            },
        };
        (Generation { config, home, phase }, step)
    }

    /// Whether the generation waits for an answer of this kind.
    pub fn accepts(&self, outcome: &Outcome) -> (r: bool)
        ensures
            r == expects(self.phase, *outcome),
    {
        match &self.phase {
            Phase::AwaitTarget(_) | Phase::AwaitBundle(_) | Phase::AwaitExecutable(_, _) => {
                matches!(outcome, Outcome::Exists(_))
            },
            Phase::AwaitKind(_) => matches!(outcome, Outcome::IsDirectory(_)),
            Phase::AwaitInspection(_) => matches!(outcome, Outcome::Inspected(_)),
            Phase::Over => false,
            _ => matches!(outcome, Outcome::Done | Outcome::Failed(_)),
        }
    }

    /// Takes the answer to the last step and decides the next one.
    pub fn advance(self, outcome: Outcome) -> (r: (Generation, Step))
        requires
            expects(self.phase, outcome),
        ensures
            r.0.config == self.config,
            r.0.home == self.home,
            advances(self.config, self.home@, self.phase, outcome, r.0.phase, r.1),
    {
        let Generation { config, home, phase } = self;
        let (after, step) = next(&config, home.as_str(), phase, outcome);
        (Generation { config, home, phase: after }, step)
    }
}

/// The order in which a generation passes through its phases.
pub open spec fn stage(phase: Phase) -> nat {
    match phase {
        Phase::AwaitTarget(_) => 0,
        Phase::AwaitOutputDir(_) => 1,
        Phase::AwaitBundle(_) => 2,
        Phase::AwaitFolders(_) => 3,
        Phase::AwaitIcon(_) => 4,
        Phase::AwaitKind(_) => 5,
        Phase::AwaitInspection(_) => 6,
        Phase::AwaitExecutable(_, _) => 7,
        Phase::AwaitInfoPlist(_, _, _) => 8,
        Phase::AwaitConfig(_, _, _, _) => 9,
        Phase::AwaitLauncher(_, _, _) => 10,
        Phase::AwaitPermissions(_, _, _) => 11,
        Phase::AwaitSignature(_, _, _) => 12,
        Phase::Over => 13,
    }
}

/// Every answer moves a generation forward, so every generation ends.
pub proof fn generation_moves_forward(
    config: GenerateShortcutConfig,
    home: Seq<char>,
    before: Phase,
    outcome: Outcome,
    after: Phase,
    step: Step,
)
    requires
        advances(config, home, before, outcome, after, step),
    ensures
        stage(after) > stage(before),
{
}

/// A generation is over exactly when its last step is the finished wrapper or the
/// error that stopped it.
pub proof fn generation_stops_at_finish_or_failure(
    config: GenerateShortcutConfig,
    home: Seq<char>,
    before: Phase,
    outcome: Outcome,
    after: Phase,
    step: Step,
)
    requires
        advances(config, home, before, outcome, after, step),
    ensures
        after is Over <==> (step is Finish || step is Fail),
{
}

/// Nothing is created for a missing target, and nothing is written where a bundle
/// already exists: a generation gets past its target check only when the target
/// exists, and past its bundle check only when the bundle path is free.
pub proof fn checks_guard_the_writes(
    config: GenerateShortcutConfig,
    home: Seq<char>,
    before: Phase,
    outcome: Outcome,
    after: Phase,
    step: Step,
)
    requires
        advances(config, home, before, outcome, after, step),
        !(after is Over),
    ensures
        stage(before) == 0 ==> outcome == Outcome::Exists(true),
        stage(before) <= 2 < stage(after) ==> before is AwaitBundle && outcome == Outcome::Exists(
            false,
        ),
{
}

/// The layout a phase carries.
pub open spec fn layout_of(phase: Phase) -> Option<ShortcutLayout> {
    match phase {
        Phase::AwaitTarget(l) => Some(l),
        Phase::AwaitOutputDir(l) => Some(l),
        Phase::AwaitBundle(l) => Some(l),
        Phase::AwaitFolders(l) => Some(l),
        Phase::AwaitIcon(l) => Some(l),
        Phase::AwaitKind(l) => Some(l),
        Phase::AwaitInspection(l) => Some(l),
        Phase::AwaitExecutable(l, _) => Some(l),
        Phase::AwaitInfoPlist(l, _, _) => Some(l),
        Phase::AwaitConfig(l, _, _, _) => Some(l),
        Phase::AwaitLauncher(l, _, _) => Some(l),
        Phase::AwaitPermissions(l, _, _) => Some(l),
        Phase::AwaitSignature(l, _, _) => Some(l),
        Phase::Over => None,
    }
}

/// The phase carries the layout planned for the configuration and home folder.
pub open spec fn planned(config: GenerateShortcutConfig, home: Seq<char>, phase: Phase) -> bool {
    match layout_of(phase) {
        Some(l) => shortcut::layout_for(config, home) == Ok::<shortcut::ShortcutLayoutView, Seq<char>>(l@),
        None => true,
    }
}

/// The folders a step creates and the files it writes or changes.
pub open spec fn written_paths(step: Step) -> Seq<Seq<char>> {
    match step {
        Step::CreateOutputDir(p) => seq![p@],
        Step::CreateFolders(a, b) => seq![a@, b@],
        Step::WriteIcon(p) => seq![p@],
        Step::WriteInfoPlist(p, _) => seq![p@],
        Step::WriteConfig(p, _) => seq![p@],
        Step::WriteLauncher(p, _) => seq![p@],
        Step::MakeExecutable(p) => seq![p@],
        Step::Sign(p) => seq![p@],
        _ => Seq::empty(),
    }
}

/// A generation starts from the layout planned for its configuration.
pub proof fn generation_starts_from_its_plan(
    config: GenerateShortcutConfig,
    home: Seq<char>,
    after: Phase,
    step: Step,
)
    requires
        begins(config, home, after, step),
    ensures
        planned(config, home, after),
{
}

/// A generation keeps the layout it planned, and writes nothing but the output
/// folder, the new bundle and what lies inside the bundle: the target and every
/// other path are left as they are.
pub proof fn generation_writes_only_its_bundle(
    config: GenerateShortcutConfig,
    home: Seq<char>,
    before: Phase,
    outcome: Outcome,
    after: Phase,
    step: Step,
)
    requires
        advances(config, home, before, outcome, after, step),
        planned(config, home, before),
    ensures
        planned(config, home, after),
        forall|i: int|
            0 <= i < written_paths(step).len() ==> {
                let p = #[trigger] written_paths(step)[i];
                let l = layout_of(before)->0;
                p == l.output_dir@ || p == l.bundle_path@ || text::starts_with(
                    p,
                    l.bundle_path@ + seq!['/'],
                )
            },
{
    shortcut::bundle_files_lie_inside_the_bundle(config, home);
}

/// Generating a shortcut again, after a generation of it finished, finds the first
/// wrapper: when the second generation's bundle check finds the bundle path taken,
/// it stops with the duplicate message that names the finished wrapper's path, and
/// writes nothing into it.
pub proof fn second_generation_finds_the_first(
    config: GenerateShortcutConfig,
    home: Seq<char>,
    first_before: Phase,
    first_outcome: Outcome,
    first_after: Phase,
    generated: GeneratedShortcut,
    second_before: Phase,
    second_after: Phase,
    second_step: Step,
)
    requires
        planned(config, home, first_before),
        advances(config, home, first_before, first_outcome, first_after, Step::Finish(generated)),
        planned(config, home, second_before),
        second_before is AwaitBundle,
        advances(config, home, second_before, Outcome::Exists(true), second_after, second_step),
    ensures
        second_after is Over,
        second_step matches Step::Fail(e) && e@ == shortcut::duplicate_text(generated.path@),
{
    let l1 = layout_of(first_before)->0;
    let l2 = layout_of(second_before)->0;
    assert(first_before is AwaitSignature);
    assert(generated.path == l1.bundle_path);
    assert(l1@ == l2@);
}

} // verus!
