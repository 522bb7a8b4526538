//! The zsh launcher script that a generated wrapper runs.
use vstd::prelude::*;
use crate::config::GenerateShortcutConfig;
use crate::env::EnvVars;
use crate::escape::{self, shell_quote};
use crate::text::{
    self, chars_of, contains_str, owned, push_chars, replace_exec, starts_with_exec, str_eq,
    to_lowercase, trim_exec,
};

verus! {

pub const FILE_FOLDER_HEAD: &'static str = "#!/bin/zsh\nset -u\n/usr/bin/open -- ";

pub const SCRIPT_HEAD: &'static str = "#!/bin/zsh\nset -u\n\n";

pub const OPEN_ENV_INIT: &'static str = "OPEN_ENV_ARGS=()\n";

pub const MAKE_DATA_DIR: &'static str = "mkdir -p -- \"$DATA_PATH\"\n";

/// Isolates `HOME`, the XDG folders and `CODEX_HOME` under the data folder, and
/// sets up a browser profile beside them.
pub const ELECTRON_HOME: &'static str = "HOME_PATH=\"$DATA_PATH/Home\"\nBROWSER_PROFILE=\"$DATA_PATH/Browser\"\nmkdir -p -- \"$HOME_PATH\" \"$HOME_PATH/.config\" \"$HOME_PATH/.cache\" \"$HOME_PATH/.local/share\" \"$HOME_PATH/.codex\" \"$BROWSER_PROFILE\"\nexport HOME=\"$HOME_PATH\"\nexport XDG_CONFIG_HOME=\"$HOME_PATH/.config\"\nexport XDG_CACHE_HOME=\"$HOME_PATH/.cache\"\nexport XDG_DATA_HOME=\"$HOME_PATH/.local/share\"\nexport CODEX_HOME=\"$HOME_PATH/.codex\"\n";

/// Hands the isolated environment to `open`, which does not pass the script's own.
pub const ELECTRON_OPEN_ENV: &'static str = "OPEN_ENV_ARGS+=(--env \"HOME=$HOME_PATH\")\nOPEN_ENV_ARGS+=(--env \"XDG_CONFIG_HOME=$HOME_PATH/.config\")\nOPEN_ENV_ARGS+=(--env \"XDG_CACHE_HOME=$HOME_PATH/.cache\")\nOPEN_ENV_ARGS+=(--env \"XDG_DATA_HOME=$HOME_PATH/.local/share\")\nOPEN_ENV_ARGS+=(--env \"CODEX_HOME=$HOME_PATH/.codex\")\n";

pub const ELECTRON_PROFILE_ARG: &'static str = "ARGS+=(\"--user-data-dir=$BROWSER_PROFILE\")\n";

pub const FIREFOX_PROFILE_ARG: &'static str = "ARGS+=(\"-profile\" \"$DATA_PATH\" \"-new-instance\")\n";

pub const CHROMIUM_PROFILE_ARG: &'static str = "ARGS+=(\"--user-data-dir=$DATA_PATH\")\n";

pub const HOME_OVERRIDE: &'static str = "mkdir -p -- \"$DATA_PATH/Library/Application Support\" \"$DATA_PATH/Desktop\" \"$DATA_PATH/Documents\"\nexport HOME=\"$DATA_PATH\"\n";

pub const HOME_OVERRIDE_OPEN_ENV: &'static str = "OPEN_ENV_ARGS+=(--env \"HOME=$DATA_PATH\")\n";

pub const OPEN_WITH_ARGS: &'static str = "\nif (( ${#ARGS[@]} )); then\n  /usr/bin/open -n \"${OPEN_ENV_ARGS[@]}\" ";

pub const OPEN_ARGS_TAIL: &'static str = " --args \"${ARGS[@]}\"\nelse\n  /usr/bin/open -n \"${OPEN_ENV_ARGS[@]}\" ";

pub const OPEN_END: &'static str = "\nfi\nSTATUS=$?\n";

pub const ERASE_SKIPPED: &'static str = "# System Launch Mode does not wait for app exit, so erase-on-close is skipped here.\n";

pub const RUN_TARGET: &'static str = "\n\"$TARGET\" \"${ARGS[@]}\" &\nPID=$!\nwait \"$PID\"\nSTATUS=$?\n";

pub const ERASE_DATA: &'static str = "rm -rf -- \"$DATA_PATH\"\n";

pub const EXIT_STATUS: &'static str = "exit \"$STATUS\"\n";

/// An argument that already chooses a browser profile.
pub open spec fn profile_arg(arg: Seq<char>) -> bool {
    text::contains(arg, "user-data-dir"@) || arg == "-profile"@ || text::starts_with(
        arg,
        "-profile "@,
    )
}

pub open spec fn any_profile_arg(args: Seq<Seq<char>>) -> bool {
    exists|i: int| 0 <= i < args.len() && profile_arg(#[trigger] args[i])
}

/// The lines that set up a browser profile, for the `automatic` and
/// `browserProfile` strategies.
pub open spec fn profile_lines(
    strategy: Seq<char>,
    preset_lower: Seq<char>,
    args: Seq<Seq<char>>,
    system_open: bool,
) -> Seq<char> {
    if strategy == "automatic"@ || strategy == "browserProfile"@ {
        let profile_given = any_profile_arg(args);
        if text::contains(preset_lower, "electron"@) {
            ELECTRON_HOME@ + (if system_open {
                ELECTRON_OPEN_ENV@
            } else {
                Seq::empty()
            }) + (if !profile_given {
                ELECTRON_PROFILE_ARG@
            } else {
                Seq::empty()
            })
        } else if !profile_given && text::contains(preset_lower, "firefox"@) {
            FIREFOX_PROFILE_ARG@
        } else if !profile_given {
            CHROMIUM_PROFILE_ARG@
        } else {
            Seq::empty()
        }
    } else {
        Seq::empty()
    }
}

/// The lines that move `HOME` into the data folder, for the `homeOverride` strategy.
pub open spec fn home_lines(strategy: Seq<char>, system_open: bool) -> Seq<char> {
    if strategy == "homeOverride"@ {
        HOME_OVERRIDE@ + (if system_open {
            HOME_OVERRIDE_OPEN_ENV@
        } else {
            Seq::empty()
        })
    } else {
        Seq::empty()
    }
}

/// The lines for one environment variable: its export, and under `open` its
/// `--env` argument.
pub open spec fn env_line(entry: (Seq<char>, Seq<char>), system_open: bool) -> Seq<char> {
    "export "@ + entry.0 + "="@ + escape::shell_quoted(entry.1) + "\n"@ + (if system_open {
        "OPEN_ENV_ARGS+=(--env "@ + escape::shell_quoted(entry.0 + "="@ + entry.1) + ")\n"@
    } else {
        Seq::empty()
    })
}

pub open spec fn env_lines(env: Seq<(Seq<char>, Seq<char>)>, system_open: bool) -> Seq<char>
    decreases env.len(),
{
    if env.len() == 0 {
        Seq::empty()
    } else {
        env_lines(env.drop_last(), system_open) + env_line(env.last(), system_open)
    }
}

/// An argument with `${DATA_PATH}` and then `$DATA_PATH` replaced by the data path.
pub open spec fn expand_data_path(arg: Seq<char>, data: Seq<char>) -> Seq<char> {
    text::replace_all(text::replace_all(arg, "${DATA_PATH}"@, data), "$DATA_PATH"@, data)
}

pub open spec fn arg_line(arg: Seq<char>, data: Seq<char>) -> Seq<char> {
    "ARGS+=("@ + escape::shell_quoted(expand_data_path(arg, data)) + ")\n"@
}

pub open spec fn arg_lines(args: Seq<Seq<char>>, data: Seq<char>) -> Seq<char>
    decreases args.len(),
{
    if args.len() == 0 {
        Seq::empty()
    } else {
        arg_lines(args.drop_last(), data) + arg_line(args.last(), data)
    }
}

/// The end of the script: `open -n` on the target (with or without arguments) for
/// a system launch, else the executable run in the background and waited for,
/// the data folder then removed when it is to be erased on close.
pub open spec fn launch_lines(target: Seq<char>, system_open: bool, erase: bool) -> Seq<char> {
    if system_open {
        OPEN_WITH_ARGS@ + escape::shell_quoted(target) + OPEN_ARGS_TAIL@ + escape::shell_quoted(
            target,
        ) + OPEN_END@ + (if erase {
            ERASE_SKIPPED@
        } else {
            Seq::empty()
        }) + EXIT_STATUS@
    } else {
        RUN_TARGET@ + (if erase {
            ERASE_DATA@
        } else {
            Seq::empty()
        }) + EXIT_STATUS@
    }
}

pub open spec fn opt_str_view(o: Option<&str>) -> Option<Seq<char>> {
    match o {
        Some(s) => Some(s@),
        None => None,
    }
}

/// A system launch goes through `open`, except for command shortcuts.
pub open spec fn uses_system_open(config: GenerateShortcutConfig) -> bool {
    config.launch_mode@ == "systemLaunch"@ && config.shortcut_type@ != "command"@
}

/// The data folder is created when a strategy uses one and a path is given.
pub open spec fn creates_data(config: GenerateShortcutConfig, data: Seq<char>) -> bool {
    config.data_strategy@ != "none"@ && text::trim(data).len() > 0
}

/// The first lines of a launcher: the shebang, `set -u`, `TARGET`, `DATA_PATH`,
/// an empty `ARGS`, the `open` environment when `open` launches, and the data
/// folder when it is created.
pub open spec fn setup_lines(
    executable: Option<Seq<char>>,
    data: Seq<char>,
    system_open: bool,
    create: bool,
) -> Seq<char> {
    SCRIPT_HEAD@ + "TARGET="@ + escape::shell_quoted(
        match executable {
            Some(e) => e,
            None => Seq::empty(),
        },
    ) + "\n"@ + "DATA_PATH="@ + escape::shell_quoted(data) + "\n"@ + "ARGS=()\n\n"@ + (
    if system_open {
        OPEN_ENV_INIT@
    } else {
        Seq::empty()
    }) + (if create {
        MAKE_DATA_DIR@
    } else {
        Seq::empty()
    })
}

/// The launcher script. A file or folder shortcut opens its target with `open`.
/// Any other shortcut sets `TARGET` and `DATA_PATH`, creates the data folder,
/// applies the data strategy, exports the environment, adds the arguments, and
/// launches.
pub open spec fn launcher_text(
    config: GenerateShortcutConfig,
    target: Seq<char>,
    executable: Option<Seq<char>>,
    data: Seq<char>,
    preset_lower: Seq<char>,
    args: Seq<Seq<char>>,
    env: Seq<(Seq<char>, Seq<char>)>,
) -> Seq<char> {
    if config.shortcut_type@ == "fileFolder"@ {
        FILE_FOLDER_HEAD@ + escape::shell_quoted(target) + "\n"@
    } else {
        let system_open = uses_system_open(config);
        let create = creates_data(config, data);
        setup_lines(executable, data, system_open, create) + profile_lines(
            config.data_strategy@,
            preset_lower,
            args,
            system_open,
        ) + home_lines(config.data_strategy@, system_open) + env_lines(env, system_open)
            + arg_lines(args, data) + launch_lines(
            target,
            system_open,
            config.erase_on_close && create,
        )
    }
}

fn when(cond: bool, s: &str) -> (r: String)
    ensures
        r@ == (if cond {
            s@
        } else {
            Seq::empty()
        }),
{
    if cond {
        owned(s)
    } else {
        String::new()
    }
}

fn is_profile_arg(arg: &String) -> (r: bool)
    ensures
        r == profile_arg(arg@),
{
    let a = chars_of(arg.as_str());
    let prefix = chars_of("-profile ");
    contains_str(&a, "user-data-dir") || str_eq(arg.as_str(), "-profile") || starts_with_exec(
        &a,
        &prefix,
    )
}

fn has_profile_arg(args: &[String]) -> (r: bool)
    ensures
        r == any_profile_arg(text::string_views(args@)),
{
    let mut i: usize = 0;
    while i < args.len()
        invariant
            i <= args.len(),
            forall|j: int| 0 <= j < i ==> !profile_arg(#[trigger] text::string_views(args@)[j]),
        decreases args.len() - i,
    {
        if is_profile_arg(&args[i]) {
            assert(profile_arg(text::string_views(args@)[i as int]));
            return true;
        }
        i += 1;
    }
    false
}

fn profile_section(strategy: &str, preset_lower: &str, args: &[String], system_open: bool) -> (r:
    String)
    ensures
        r@ == profile_lines(strategy@, preset_lower@, text::string_views(args@), system_open),
{
    if !(str_eq(strategy, "automatic") || str_eq(strategy, "browserProfile")) {
        return String::new();
    }
    let profile_given = has_profile_arg(args);
    let p = chars_of(preset_lower);
    if contains_str(&p, "electron") {
        let mut out = owned(ELECTRON_HOME);
        let open_env = when(system_open, ELECTRON_OPEN_ENV);
        out.append(open_env.as_str());
        let arg = when(!profile_given, ELECTRON_PROFILE_ARG);
        out.append(arg.as_str());
        out
    } else if !profile_given && contains_str(&p, "firefox") {
        owned(FIREFOX_PROFILE_ARG)
    } else if !profile_given {
        owned(CHROMIUM_PROFILE_ARG)
    } else {
        String::new()
    }
}

fn home_section(strategy: &str, system_open: bool) -> (r: String)
    ensures
        r@ == home_lines(strategy@, system_open),
{
    if !str_eq(strategy, "homeOverride") {
        return String::new();
    }
    let mut out = owned(HOME_OVERRIDE);
    let open_env = when(system_open, HOME_OVERRIDE_OPEN_ENV);
    out.append(open_env.as_str());
    out
}

fn env_section(env_vars: &EnvVars, system_open: bool) -> (r: String)
    ensures
        r@ == env_lines(env_vars@, system_open),
{
    let mut out = String::new();
    let mut i: usize = 0;
    assert(env_vars@.take(0) =~= Seq::<(Seq<char>, Seq<char>)>::empty());
    while i < env_vars.len()
        invariant
            i <= env_vars@.len(),
            out@ == env_lines(env_vars@.take(i as int), system_open),
        decreases env_vars@.len() - i,
    {
        let (key, value) = env_vars.entry(i);
        assert(env_vars@.take(i + 1).drop_last() =~= env_vars@.take(i as int));
        assert(env_vars@.take(i + 1).last() == env_vars@[i as int]);
        out.append("export ");
        out.append(key.as_str());
        out.append("=");
        let quoted = shell_quote(value.as_str());
        out.append(quoted.as_str());
        out.append("\n");
        let mut open_env = String::new();
        if system_open {
            let mut pair = owned(key.as_str());
            pair.append("=");
            pair.append(value.as_str());
            open_env.append("OPEN_ENV_ARGS+=(--env ");
            let q = shell_quote(pair.as_str());
            open_env.append(q.as_str());
            open_env.append(")\n");
        }
        out.append(open_env.as_str());
        i += 1;
    }
    assert(env_vars@.take(i as int) =~= env_vars@);
    out
}

fn expand_data(arg: &String, data_path: &str) -> (r: String)
    ensures
        r@ == expand_data_path(arg@, data_path@),
{
    let a = chars_of(arg.as_str());
    let d = chars_of(data_path);
    let braced = chars_of("${DATA_PATH}");
    let bare = chars_of("$DATA_PATH");
    proof {
        reveal_strlit("${DATA_PATH}");
        reveal_strlit("$DATA_PATH");
    }
    let once = replace_exec(&a, &braced, &d);
    let twice = replace_exec(&once, &bare, &d);
    let mut out = String::new();
    push_chars(&mut out, &twice);
    assert(out@ =~= twice@);
    out
}

fn arg_section(args: &[String], data_path: &str) -> (r: String)
    ensures
        r@ == arg_lines(text::string_views(args@), data_path@),
{
    let ghost views = text::string_views(args@);
    let mut out = String::new();
    let mut i: usize = 0;
    assert(views.take(0) =~= Seq::<Seq<char>>::empty());
    while i < args.len()
        invariant
            i <= args.len(),
            views == text::string_views(args@),
            out@ == arg_lines(views.take(i as int), data_path@),
        decreases args.len() - i,
    {
        assert(views.take(i + 1).drop_last() =~= views.take(i as int));
        assert(views.take(i + 1).last() == args@[i as int]@);
        let expanded = expand_data(&args[i], data_path);
        out.append("ARGS+=(");
        let q = shell_quote(expanded.as_str());
        out.append(q.as_str());
        out.append(")\n");
        i += 1;
    }
    assert(views.take(i as int) =~= views);
    out
}

fn launch_section(target: &str, system_open: bool, erase: bool) -> (r: String)
    ensures
        r@ == launch_lines(target@, system_open, erase),
{
    let quoted = shell_quote(target);
    if system_open {
        let mut out = owned(OPEN_WITH_ARGS);
        out.append(quoted.as_str());
        out.append(OPEN_ARGS_TAIL);
        out.append(quoted.as_str());
        out.append(OPEN_END);
        let note = when(erase, ERASE_SKIPPED);
        out.append(note.as_str());
        out.append(EXIT_STATUS);
        out
    } else {
        let mut out = owned(RUN_TARGET);
        let remove = when(erase, ERASE_DATA);
        out.append(remove.as_str());
        out.append(EXIT_STATUS);
        out
    }
}

/// The launcher script, given the preset already lowercased.
pub fn render_launcher_script(
    config: &GenerateShortcutConfig,
    target_path: &str,
    executable_path: Option<&str>,
    data_path: &str,
    preset_lower: &str,
    custom_args: &[String],
    env_vars: &EnvVars,
) -> (r: String)
    ensures
        r@ == launcher_text(
            *config,
            target_path@,
            opt_str_view(executable_path),
            data_path@,
            preset_lower@,
            text::string_views(custom_args@),
            env_vars@,
        ),
{
    if str_eq(config.shortcut_type.as_str(), "fileFolder") {
        let mut out = owned(FILE_FOLDER_HEAD);
        let q = shell_quote(target_path);
        out.append(q.as_str());
        out.append("\n");
        return out;
    }
    let strategy = config.data_strategy.as_str();
    let data = chars_of(data_path);
    let create = !str_eq(strategy, "none") && trim_exec(&data).len() > 0;
    let system_open = str_eq(config.launch_mode.as_str(), "systemLaunch") && !str_eq(
        config.shortcut_type.as_str(),
        "command",
    );
    let mut out = owned(SCRIPT_HEAD);
    out.append("TARGET=");
    let target = match executable_path {
        Some(e) => shell_quote(e),
        None => shell_quote(""),
    };
    proof {
        reveal_strlit("");
    }
    out.append(target.as_str());
    out.append("\n");
    out.append("DATA_PATH=");
    let quoted_data = shell_quote(data_path);
    out.append(quoted_data.as_str());
    out.append("\n");
    out.append("ARGS=()\n\n");
    let open_init = when(system_open, OPEN_ENV_INIT);
    out.append(open_init.as_str());
    let mkdir = when(create, MAKE_DATA_DIR);
    out.append(mkdir.as_str());
    let profile = profile_section(strategy, preset_lower, custom_args, system_open);
    out.append(profile.as_str());
    let home = home_section(strategy, system_open);
    out.append(home.as_str());
    let env = env_section(env_vars, system_open);
    out.append(env.as_str());
    let args = arg_section(custom_args, data_path);
    out.append(args.as_str());
    let launch = launch_section(target_path, system_open, config.erase_on_close && create);
    out.append(launch.as_str());
    out
}

/// The launcher script of a shortcut. `preset` is the inspected preset of the
/// target; its lowercase form decides the browser-profile setup.
pub fn launcher_script(
    config: &GenerateShortcutConfig,
    target_path: &str,
    executable_path: Option<&str>,
    data_path: &str,
    preset: &str,
    custom_args: &[String],
    env_vars: &EnvVars,
) -> (r: String)
    ensures
        r@ == launcher_text(
            *config,
            target_path@,
            opt_str_view(executable_path),
            data_path@,
            text::lowercase(preset@),
            text::string_views(custom_args@),
            env_vars@,
        ),
{
    let lowered = to_lowercase(preset);
    render_launcher_script(
        config,
        target_path,
        executable_path,
        data_path,
        lowered.as_str(),
        custom_args,
        env_vars,
    )
}

proof fn lemma_env_lines_hold(env: Seq<(Seq<char>, Seq<char>)>, system_open: bool, i: int)
    requires
        0 <= i < env.len(),
    ensures
        text::contains(env_lines(env, system_open), env_line(env[i], system_open)),
    decreases env.len(),
{
    let prev = env_lines(env.drop_last(), system_open);
    let last = env_line(env.last(), system_open);
    if i == env.len() - 1 {
        text::lemma_contains_middle(prev, last, Seq::empty());
        assert(prev + last + Seq::empty() =~= env_lines(env, system_open));
    } else {
        lemma_env_lines_hold(env.drop_last(), system_open, i);
        assert(env.drop_last()[i] == env[i]);
        text::lemma_contains_within(prev, env_line(env[i], system_open), Seq::empty(), last);
        assert(Seq::empty() + prev + last =~= env_lines(env, system_open));
    }
}

proof fn lemma_arg_lines_hold(args: Seq<Seq<char>>, data: Seq<char>, i: int)
    requires
        0 <= i < args.len(),
    ensures
        text::contains(arg_lines(args, data), arg_line(args[i], data)),
    decreases args.len(),
{
    let prev = arg_lines(args.drop_last(), data);
    let last = arg_line(args.last(), data);
    if i == args.len() - 1 {
        text::lemma_contains_middle(prev, last, Seq::empty());
        assert(prev + last + Seq::empty() =~= arg_lines(args, data));
    } else {
        lemma_arg_lines_hold(args.drop_last(), data, i);
        assert(args.drop_last()[i] == args[i]);
        text::lemma_contains_within(prev, arg_line(args[i], data), Seq::empty(), last);
        assert(Seq::empty() + prev + last =~= arg_lines(args, data));
    }
}

/// Every environment variable is exported by the launcher, and under a system
/// launch it is also handed to `open` as an `--env` argument.
pub proof fn environment_reaches_the_target(
    config: GenerateShortcutConfig,
    target: Seq<char>,
    executable: Option<Seq<char>>,
    data: Seq<char>,
    preset_lower: Seq<char>,
    args: Seq<Seq<char>>,
    env: Seq<(Seq<char>, Seq<char>)>,
    i: int,
)
    requires
        config.shortcut_type@ != "fileFolder"@,
        0 <= i < env.len(),
    ensures
        text::contains(
            launcher_text(config, target, executable, data, preset_lower, args, env),
            "export "@ + env[i].0 + "="@ + escape::shell_quoted(env[i].1) + "\n"@,
        ),
        uses_system_open(config) ==> text::contains(
            launcher_text(config, target, executable, data, preset_lower, args, env),
            "OPEN_ENV_ARGS+=(--env "@ + escape::shell_quoted(env[i].0 + "="@ + env[i].1) + ")\n"@,
        ),
{
    let sys = uses_system_open(config);
    let create = creates_data(config, data);
    let head = setup_lines(executable, data, sys, create) + profile_lines(
        config.data_strategy@,
        preset_lower,
        args,
        sys,
    ) + home_lines(config.data_strategy@, sys);
    let tail = arg_lines(args, data) + launch_lines(target, sys, config.erase_on_close && create);
    let script = launcher_text(config, target, executable, data, preset_lower, args, env);
    let lines = env_lines(env, sys);
    assert(script =~= head + lines + tail);
    lemma_env_lines_hold(env, sys, i);
    let export = "export "@ + env[i].0 + "="@ + escape::shell_quoted(env[i].1) + "\n"@;
    let open_env = "OPEN_ENV_ARGS+=(--env "@ + escape::shell_quoted(env[i].0 + "="@ + env[i].1)
        + ")\n"@;
    let line = env_line(env[i], sys);
    if sys {
        assert(line =~= export + open_env);
        text::lemma_contains_middle(Seq::empty(), export, open_env);
        assert(Seq::empty() + export + open_env =~= line);
        text::lemma_contains_middle(export, open_env, Seq::empty());
        assert(export + open_env + Seq::empty() =~= line);
    } else {
        assert(line =~= export + Seq::empty());
        text::lemma_contains_middle(Seq::empty(), export, Seq::empty());
        assert(Seq::empty() + export + Seq::empty() =~= line);
    }
    lemma_contains_transitive(lines, line, export);
    text::lemma_contains_within(lines, export, head, tail);
    if sys {
        lemma_contains_transitive(lines, line, open_env);
        text::lemma_contains_within(lines, open_env, head, tail);
    }
}

/// What a part holds, a whole that holds the part holds.
proof fn lemma_contains_transitive(a: Seq<char>, b: Seq<char>, c: Seq<char>)
    requires
        text::contains(a, b),
        text::contains(b, c),
    ensures
        text::contains(a, c),
{
    let i = choose|i: int| text::occurs_at(a, b, i);
    let j = choose|j: int| text::occurs_at(b, c, j);
    assert(a.subrange(i + j, i + j + c.len()) =~= b.subrange(j, j + c.len()));
    assert(text::occurs_at(a, c, i + j));
}

/// Every argument line reaches the launcher, quoted, with the data path put in
/// for `${DATA_PATH}` and `$DATA_PATH`.
pub proof fn arguments_reach_the_target(
    config: GenerateShortcutConfig,
    target: Seq<char>,
    executable: Option<Seq<char>>,
    data: Seq<char>,
    preset_lower: Seq<char>,
    args: Seq<Seq<char>>,
    env: Seq<(Seq<char>, Seq<char>)>,
    i: int,
)
    requires
        config.shortcut_type@ != "fileFolder"@,
        0 <= i < args.len(),
    ensures
        text::contains(
            launcher_text(config, target, executable, data, preset_lower, args, env),
            "ARGS+=("@ + escape::shell_quoted(expand_data_path(args[i], data)) + ")\n"@,
        ),
{
    let sys = uses_system_open(config);
    let create = creates_data(config, data);
    let head = setup_lines(executable, data, sys, create) + profile_lines(
        config.data_strategy@,
        preset_lower,
        args,
        sys,
    ) + home_lines(config.data_strategy@, sys) + env_lines(env, sys);
    let tail = launch_lines(target, sys, config.erase_on_close && create);
    let lines = arg_lines(args, data);
    assert(launcher_text(config, target, executable, data, preset_lower, args, env) =~= head
        + lines + tail);
    lemma_arg_lines_hold(args, data, i);
    text::lemma_contains_within(lines, arg_line(args[i], data), head, tail);
}

/// A system launch hands the target to `open -n`, with the arguments after
/// `--args` when there are any; any other launch runs the executable itself and
/// waits for it.
pub proof fn system_launch_goes_through_open(
    config: GenerateShortcutConfig,
    target: Seq<char>,
    executable: Option<Seq<char>>,
    data: Seq<char>,
    preset_lower: Seq<char>,
    args: Seq<Seq<char>>,
    env: Seq<(Seq<char>, Seq<char>)>,
)
    requires
        config.shortcut_type@ != "fileFolder"@,
    ensures
        uses_system_open(config) ==> text::contains(
            launcher_text(config, target, executable, data, preset_lower, args, env),
            OPEN_WITH_ARGS@ + escape::shell_quoted(target) + OPEN_ARGS_TAIL@,
        ),
        !uses_system_open(config) ==> text::contains(
            launcher_text(config, target, executable, data, preset_lower, args, env),
            RUN_TARGET@,
        ),
{
    let sys = uses_system_open(config);
    let create = creates_data(config, data);
    let erase = config.erase_on_close && create;
    let head = setup_lines(executable, data, sys, create) + profile_lines(
        config.data_strategy@,
        preset_lower,
        args,
        sys,
    ) + home_lines(config.data_strategy@, sys) + env_lines(env, sys) + arg_lines(args, data);
    let script = launcher_text(config, target, executable, data, preset_lower, args, env);
    let q = escape::shell_quoted(target);
    if sys {
        let opening = OPEN_WITH_ARGS@ + q + OPEN_ARGS_TAIL@;
        let rest = q + OPEN_END@ + (if erase {
            ERASE_SKIPPED@
        } else {
            Seq::empty()
        }) + EXIT_STATUS@;
        assert(script =~= head + opening + rest);
        text::lemma_contains_middle(head, opening, rest);
    } else {
        let rest = (if erase {
            ERASE_DATA@
        } else {
            Seq::empty()
        }) + EXIT_STATUS@;
        assert(script =~= head + RUN_TARGET@ + rest);
        text::lemma_contains_middle(head, RUN_TARGET@, rest);
    }
}

/// With the `automatic` or `browserProfile` strategy, an Electron preset gets a
/// home, XDG folders and `CODEX_HOME` of its own under the data folder (handed to
/// `open` under a system launch) and a browser profile beside them, unless the
/// arguments already choose one.
#[verifier::rlimit(40)]
pub proof fn electron_preset_is_isolated(
    config: GenerateShortcutConfig,
    target: Seq<char>,
    executable: Option<Seq<char>>,
    data: Seq<char>,
    preset_lower: Seq<char>,
    args: Seq<Seq<char>>,
    env: Seq<(Seq<char>, Seq<char>)>,
)
    requires
        config.shortcut_type@ != "fileFolder"@,
        config.data_strategy@ == "automatic"@ || config.data_strategy@ == "browserProfile"@,
        text::contains(preset_lower, "electron"@),
    ensures
        text::contains(
            launcher_text(config, target, executable, data, preset_lower, args, env),
            ELECTRON_HOME@,
        ),
        uses_system_open(config) ==> text::contains(
            launcher_text(config, target, executable, data, preset_lower, args, env),
            ELECTRON_OPEN_ENV@,
        ),
        !any_profile_arg(args) ==> text::contains(
            launcher_text(config, target, executable, data, preset_lower, args, env),
            ELECTRON_PROFILE_ARG@,
        ),
{
    let sys = uses_system_open(config);
    let create = creates_data(config, data);
    let head = setup_lines(executable, data, sys, create);
    let tail = home_lines(config.data_strategy@, sys) + env_lines(env, sys) + arg_lines(args, data)
        + launch_lines(target, sys, config.erase_on_close && create);
    let script = launcher_text(config, target, executable, data, preset_lower, args, env);
    let open_env = if sys {
        ELECTRON_OPEN_ENV@
    } else {
        Seq::empty()
    };
    let profile = if !any_profile_arg(args) {
        ELECTRON_PROFILE_ARG@
    } else {
        Seq::empty()
    };
    let lines = profile_lines(config.data_strategy@, preset_lower, args, sys);
    assert(lines == ELECTRON_HOME@ + open_env + profile);
    assert(script =~= head + lines + tail);
    text::lemma_contains_middle(Seq::empty(), ELECTRON_HOME@, open_env + profile);
    assert(Seq::empty() + ELECTRON_HOME@ + (open_env + profile) =~= lines);
    text::lemma_contains_within(lines, ELECTRON_HOME@, head, tail);
    if sys {
        text::lemma_contains_middle(ELECTRON_HOME@, ELECTRON_OPEN_ENV@, profile);
        text::lemma_contains_within(lines, ELECTRON_OPEN_ENV@, head, tail);
    }
    if !any_profile_arg(args) {
        text::lemma_contains_middle(ELECTRON_HOME@ + open_env, ELECTRON_PROFILE_ARG@, Seq::empty());
        assert(ELECTRON_HOME@ + open_env + ELECTRON_PROFILE_ARG@ + Seq::empty() =~= lines);
        text::lemma_contains_within(lines, ELECTRON_PROFILE_ARG@, head, tail);
    }
}

/// The `homeOverride` strategy moves `HOME` into the data folder, and hands it to
/// `open` under a system launch.
pub proof fn home_override_moves_home(
    config: GenerateShortcutConfig,
    target: Seq<char>,
    executable: Option<Seq<char>>,
    data: Seq<char>,
    preset_lower: Seq<char>,
    args: Seq<Seq<char>>,
    env: Seq<(Seq<char>, Seq<char>)>,
)
    requires
        config.shortcut_type@ != "fileFolder"@,
        config.data_strategy@ == "homeOverride"@,
    ensures
        text::contains(
            launcher_text(config, target, executable, data, preset_lower, args, env),
            HOME_OVERRIDE@,
        ),
        uses_system_open(config) ==> text::contains(
            launcher_text(config, target, executable, data, preset_lower, args, env),
            HOME_OVERRIDE_OPEN_ENV@,
        ),
{
    let sys = uses_system_open(config);
    let create = creates_data(config, data);
    let head = setup_lines(executable, data, sys, create) + profile_lines(
        config.data_strategy@,
        preset_lower,
        args,
        sys,
    );
    let tail = env_lines(env, sys) + arg_lines(args, data) + launch_lines(
        target,
        sys,
        config.erase_on_close && create,
    );
    let script = launcher_text(config, target, executable, data, preset_lower, args, env);
    let open_env = if sys {
        HOME_OVERRIDE_OPEN_ENV@
    } else {
        Seq::empty()
    };
    assert(script =~= head + HOME_OVERRIDE@ + (open_env + tail));
    text::lemma_contains_middle(head, HOME_OVERRIDE@, open_env + tail);
    if sys {
        assert(script =~= (head + HOME_OVERRIDE@) + HOME_OVERRIDE_OPEN_ENV@ + tail);
        text::lemma_contains_middle(head + HOME_OVERRIDE@, HOME_OVERRIDE_OPEN_ENV@, tail);
    }
}

/// Where a sequence ends with a suffix, its characters from the end agree.
proof fn lemma_ends_with_char(a: Seq<char>, x: Seq<char>, k: int)
    requires
        text::ends_with(a, x),
        0 < k <= x.len(),
    ensures
        a[a.len() - k] == x[x.len() - k],
{
    assert(a.skip(a.len() - x.len())[x.len() - k] == a[a.len() - k]);
}

proof fn lemma_ends_with_concat(p: Seq<char>, x: Seq<char>)
    ensures
        text::ends_with(p + x, x),
{
    assert((p + x).skip((p + x).len() - x.len()) =~= x);
}

proof fn lemma_quoted_ends_with_quote(v: Seq<char>)
    ensures
        escape::shell_quoted(v).len() > 0,
        escape::shell_quoted(v).last() == '\'',
{
    reveal_strlit("''");
    reveal_strlit("'");
}

/// The launcher removes the data folder, as its last step before exiting, exactly
/// when the shortcut erases on close, has a data folder, and runs its executable
/// itself: a file or folder shortcut or a system launch (which does not wait for
/// the app) never removes it.
pub proof fn data_is_removed_only_when_erasing(
    config: GenerateShortcutConfig,
    target: Seq<char>,
    executable: Option<Seq<char>>,
    data: Seq<char>,
    preset_lower: Seq<char>,
    args: Seq<Seq<char>>,
    env: Seq<(Seq<char>, Seq<char>)>,
)
    ensures
        text::ends_with(
            launcher_text(config, target, executable, data, preset_lower, args, env),
            ERASE_DATA@ + EXIT_STATUS@,
        ) <==> (config.shortcut_type@ != "fileFolder"@ && config.erase_on_close && creates_data(
            config,
            data,
        ) && !uses_system_open(config)),
{
    reveal_strlit("rm -rf -- \"$DATA_PATH\"\n");
    reveal_strlit("exit \"$STATUS\"\n");
    reveal_strlit("\n\"$TARGET\" \"${ARGS[@]}\" &\nPID=$!\nwait \"$PID\"\nSTATUS=$?\n");
    reveal_strlit("\nfi\nSTATUS=$?\n");
    reveal_strlit("# System Launch Mode does not wait for app exit, so erase-on-close is skipped here.\n");
    reveal_strlit("\n");
    let script = launcher_text(config, target, executable, data, preset_lower, args, env);
    let suffix = ERASE_DATA@ + EXIT_STATUS@;
    assert(ERASE_DATA@ == "rm -rf -- \"$DATA_PATH\"\n"@);
    assert(EXIT_STATUS@ == "exit \"$STATUS\"\n"@);
    assert(RUN_TARGET@ == "\n\"$TARGET\" \"${ARGS[@]}\" &\nPID=$!\nwait \"$PID\"\nSTATUS=$?\n"@);
    assert(OPEN_END@ == "\nfi\nSTATUS=$?\n"@);
    assert(ERASE_SKIPPED@ == "# System Launch Mode does not wait for app exit, so erase-on-close is skipped here.\n"@);
    assert(suffix.len() == 38);
    assert(suffix[36] == '"');
    assert(suffix[21] == '"');
    if config.shortcut_type@ == "fileFolder"@ {
        let q = escape::shell_quoted(target);
        lemma_quoted_ends_with_quote(target);
        assert(script == FILE_FOLDER_HEAD@ + q + "\n"@);
        if text::ends_with(script, suffix) {
            lemma_ends_with_char(script, suffix, 2);
            assert(script[script.len() - 2] == q.last());
        }
    } else {
        let sys = uses_system_open(config);
        let create = creates_data(config, data);
        let erase = config.erase_on_close && create;
        let head = setup_lines(executable, data, sys, create) + profile_lines(
            config.data_strategy@,
            preset_lower,
            args,
            sys,
        ) + home_lines(config.data_strategy@, sys) + env_lines(env, sys) + arg_lines(args, data);
        if sys {
            let before = head + OPEN_WITH_ARGS@ + escape::shell_quoted(target) + OPEN_ARGS_TAIL@
                + escape::shell_quoted(target) + OPEN_END@;
            if erase {
                assert(script =~= before + ERASE_SKIPPED@ + EXIT_STATUS@);
                if text::ends_with(script, suffix) {
                    lemma_ends_with_char(script, suffix, 17);
                    assert(script[script.len() - 17] == ERASE_SKIPPED@[ERASE_SKIPPED@.len() - 2]);
                }
            } else {
                assert(script =~= before + EXIT_STATUS@);
                if text::ends_with(script, suffix) {
                    lemma_ends_with_char(script, suffix, 17);
                    assert(script[script.len() - 17] == OPEN_END@[OPEN_END@.len() - 2]);
                }
            }
        } else {
            if erase {
                assert(script =~= (head + RUN_TARGET@) + suffix);
                lemma_ends_with_concat(head + RUN_TARGET@, suffix);
            } else {
                assert(script =~= head + RUN_TARGET@ + EXIT_STATUS@);
                if text::ends_with(script, suffix) {
                    lemma_ends_with_char(script, suffix, 17);
                    assert(script[script.len() - 17] == RUN_TARGET@[RUN_TARGET@.len() - 2]);
                }
            }
        }
    }
}

/// The length of the lines of the first `i` arguments.
pub open spec fn lines_before(args: Seq<Seq<char>>, data: Seq<char>, i: int) -> int
    decreases i,
{
    if i <= 0 {
        0
    } else {
        lines_before(args, data, i - 1) + arg_line(args[i - 1], data).len()
    }
}

/// From `p` on, the script holds the argument lines one after another, in the
/// order of the arguments.
pub open spec fn arguments_in_order_at(script: Seq<char>, args: Seq<Seq<char>>, data: Seq<char>, p: int) -> bool {
    forall|i: int|
        0 <= i < args.len() ==> text::occurs_at(
            script,
            #[trigger] arg_line(args[i], data),
            p + lines_before(args, data, i),
        )
}

proof fn lemma_lines_before_prefix(args: Seq<Seq<char>>, data: Seq<char>, i: int)
    requires
        0 <= i < args.len(),
    ensures
        lines_before(args.drop_last(), data, i) == lines_before(args, data, i),
    decreases i,
{
    if i > 0 {
        lemma_lines_before_prefix(args, data, i - 1);
        assert(args.drop_last()[i - 1] == args[i - 1]);
    }
}

proof fn lemma_arg_lines_in_order(args: Seq<Seq<char>>, data: Seq<char>)
    ensures
        arguments_in_order_at(arg_lines(args, data), args, data, 0),
        arg_lines(args, data).len() == lines_before(args, data, args.len() as int),
    decreases args.len(),
{
    if args.len() > 0 {
        let pre = args.drop_last();
        lemma_arg_lines_in_order(pre, data);
        let a = arg_lines(pre, data);
        let b = arg_line(args.last(), data);
        let all = arg_lines(args, data);
        assert(all == a + b);
        assert forall|i: int| 0 <= i < args.len() implies text::occurs_at(
            all,
            #[trigger] arg_line(args[i], data),
            lines_before(args, data, i),
        ) by {
            if i < args.len() - 1 {
                lemma_lines_before_prefix(args, data, i);
                assert(pre[i] == args[i]);
                assert(text::occurs_at(a, arg_line(pre[i], data), lines_before(pre, data, i)));
                let q = lines_before(args, data, i);
                let x = arg_line(args[i], data);
                assert(all.subrange(q, q + x.len()) =~= a.subrange(q, q + x.len()));
            } else {
                lemma_lines_before_prefix(args, data, i);
                assert(lines_before(args, data, i) == a.len());
                assert(all.subrange(a.len() as int, (a.len() + b.len()) as int) =~= b);
            }
        }
        lemma_lines_before_prefix(args, data, args.len() - 1);
    }
}

/// The launcher adds the arguments in their given order: from some point on, the
/// script holds their `ARGS+=(...)` lines one after another, the first argument's
/// first.
pub proof fn arguments_keep_their_order(
    config: GenerateShortcutConfig,
    target: Seq<char>,
    executable: Option<Seq<char>>,
    data: Seq<char>,
    preset_lower: Seq<char>,
    args: Seq<Seq<char>>,
    env: Seq<(Seq<char>, Seq<char>)>,
)
    requires
        config.shortcut_type@ != "fileFolder"@,
    ensures
        exists|p: int|
            arguments_in_order_at(
                launcher_text(config, target, executable, data, preset_lower, args, env),
                args,
                data,
                p,
            ),
{
    let sys = uses_system_open(config);
    let create = creates_data(config, data);
    let head = setup_lines(executable, data, sys, create) + profile_lines(
        config.data_strategy@,
        preset_lower,
        args,
        sys,
    ) + home_lines(config.data_strategy@, sys) + env_lines(env, sys);
    let tail = launch_lines(target, sys, config.erase_on_close && create);
    let lines = arg_lines(args, data);
    let script = launcher_text(config, target, executable, data, preset_lower, args, env);
    assert(script =~= head + lines + tail);
    lemma_arg_lines_in_order(args, data);
    assert forall|i: int| 0 <= i < args.len() implies text::occurs_at(
        script,
        #[trigger] arg_line(args[i], data),
        head.len() + lines_before(args, data, i),
    ) by {
        let q = lines_before(args, data, i);
        let x = arg_line(args[i], data);
        assert(text::occurs_at(lines, x, q));
        assert(script.subrange(head.len() + q, head.len() + q + x.len()) =~= lines.subrange(
            q,
            q + x.len(),
        ));
    }
    assert(arguments_in_order_at(script, args, data, head.len() as int));
}

} // verus!
