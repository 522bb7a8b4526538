//! What an app bundle's property list and code-signing entitlements say about
//! how a wrapper can isolate it.
use vstd::prelude::*;
use crate::json::{self, JsonValue};
use crate::paths::{self, chars_eq_ignore_ascii_case, path_extension, path_file_stem, path_join};
use crate::text::{
    self, chars_of, contains_str, owned, push_string, string_of, to_lowercase, trim_exec,
};

verus! {

/// The findings about a selected target.
pub struct AppInspection {
    pub path: String,
    pub name: String,
    pub bundle_id: String,
    pub executable_path: Option<String>,
    pub icon_file: Option<String>,
    pub sandboxed: bool,
    pub compatibility: String,
    pub preset: String,
    pub valid: bool,
    pub warnings: Vec<String>,
}

pub ghost struct AppInspectionView {
    pub path: Seq<char>,
    pub name: Seq<char>,
    pub bundle_id: Seq<char>,
    pub executable_path: Option<Seq<char>>,
    pub icon_file: Option<Seq<char>>,
    pub sandboxed: bool,
    pub compatibility: Seq<char>,
    pub preset: Seq<char>,
    pub valid: bool,
    pub warnings: Seq<Seq<char>>,
}

impl View for AppInspection {
    type V = AppInspectionView;

    open spec fn view(&self) -> AppInspectionView {
        AppInspectionView {
            path: self.path@,
            name: self.name@,
            bundle_id: self.bundle_id@,
            executable_path: text::opt_view(self.executable_path),
            icon_file: text::opt_view(self.icon_file),
            sandboxed: self.sandboxed,
            compatibility: self.compatibility@,
            preset: self.preset@,
            valid: self.valid,
            warnings: text::string_views(self.warnings@),
        }
    }
}

/// What was read from inside an app bundle: its property list (or why it could
/// not be read), whether the executable it declares exists, and its code-signing
/// entitlements (or why they could not be read).
pub struct BundleFacts {
    pub plist: Result<JsonValue, String>,
    pub executable_exists: bool,
    pub entitlements: Result<JsonValue, String>,
}

/// A property-list string value, trimmed, when it is present and not blank.
pub open spec fn plist_text(plist: JsonValue, key: Seq<char>) -> Option<Seq<char>> {
    match json::json_get(plist, key) {
        Some(JsonValue::Str(s)) => if text::trim(s@).len() > 0 {
            Some(text::trim(s@))
        } else {
            None
        },
        _ => None,
    }
}

/// The entitlements mark the app as sandboxed: the sandbox entitlement is the
/// boolean `true`.
pub open spec fn is_sandboxed(entitlements: Result<JsonValue, String>) -> bool {
    match entitlements {
        Ok(v) => json::json_get(v, "com.apple.security.app-sandbox"@) == Some(JsonValue::Bool(true)),
        Err(_) => false,
    }
}

/// An entitlement value that grants something: a non-empty array, a non-blank
/// string, or any value other than `null`.
pub open spec fn has_values(value: JsonValue) -> bool {
    match value {
        JsonValue::Array(items) => items@.len() > 0,
        JsonValue::Str(s) => text::trim(s@).len() > 0,
        JsonValue::Null => false,
        _ => true,
    }
}

pub open spec fn grants(entitlements: JsonValue, key: Seq<char>) -> bool {
    match json::json_get(entitlements, key) {
        Some(v) => has_values(v),
        None => false,
    }
}

/// The entitlements share Keychain access groups or application groups.
pub open spec fn shares_security_groups(entitlements: Result<JsonValue, String>) -> bool {
    match entitlements {
        Ok(v) => grants(v, "keychain-access-groups"@) || grants(
            v,
            "com.apple.security.application-groups"@,
        ),
        Err(_) => false,
    }
}

pub open spec fn entitlement_notes(entitlements: Result<JsonValue, String>) -> Seq<Seq<char>> {
    match entitlements {
        Err(e) => seq![
            "Code-signing entitlements could not be inspected. Sandbox status and shared login storage could not be confirmed: "@
                + e@,
        ],
        Ok(_) => if shares_security_groups(entitlements) {
            seq![
                "Target uses shared Keychain or app groups. CloneOnce can isolate files and profiles, but a wrapper cannot guarantee a separate login."@,
            ]
        } else {
            Seq::empty()
        },
    }
}

pub open spec fn chromium_named(haystack: Seq<char>) -> bool {
    text::contains(haystack, "chrome"@) || text::contains(haystack, "chromium"@) || text::contains(
        haystack,
        "brave"@,
    ) || text::contains(haystack, "edge"@) || text::contains(haystack, "vivaldi"@)
        || text::contains(haystack, "opera"@) || text::contains(haystack, "arc"@)
}

pub open spec fn firefox_named(haystack: Seq<char>) -> bool {
    text::contains(haystack, "firefox"@) || text::contains(haystack, "librewolf"@)
        || text::contains(haystack, "waterfox"@)
}

pub open spec fn has_key(plist: JsonValue, key: Seq<char>) -> bool {
    json::json_get(plist, key) is Some
}

pub open spec fn electron_runtime(plist: JsonValue) -> bool {
    has_key(plist, "ElectronAsarIntegrity"@)
}

pub open spec fn chromium_runtime(plist: JsonValue) -> bool {
    electron_runtime(plist) || has_key(plist, "ChromiumBaseVersion"@) || has_key(
        plist,
        "ChromiumBaseBundleVersion"@,
    ) || has_key(plist, "CrProductDirName"@)
}

/// The compatibility and preset for an app, from its lowercased name and bundle
/// identifier, its sandboxing, and its property list.
pub open spec fn compatibility(haystack: Seq<char>, sandboxed: bool, plist: JsonValue) -> (
    Seq<char>,
    Seq<char>,
) {
    if sandboxed {
        ("limited"@, "Sandboxed app container"@)
    } else if electron_runtime(plist) {
        ("supported"@, "Electron isolated HOME + --user-data-dir"@)
    } else if chromium_named(haystack) || chromium_runtime(plist) {
        ("supported"@, "Chromium --user-data-dir"@)
    } else if firefox_named(haystack) {
        ("supported"@, "Firefox -profile"@)
    } else {
        ("unknown"@, "Generic HOME override"@)
    }
}

/// The text searched for browser names: the name, a space and the bundle
/// identifier, lowercased.
pub open spec fn name_haystack(name: Seq<char>, bundle_id: Seq<char>) -> Seq<char> {
    text::lowercase(name + " "@ + bundle_id)
}

/// A directory whose extension is `app` in any ASCII case.
pub open spec fn app_bundle(path: Seq<char>, is_dir: bool) -> bool {
    is_dir && match paths::extension(path) {
        Some(ext) => paths::eq_ignore_ascii_case(ext, "app"@),
        None => false,
    }
}

/// The executable that the property list declares, under `Contents/MacOS`.
pub open spec fn declared_executable(path: Seq<char>, plist: JsonValue) -> Option<Seq<char>> {
    match plist_text(plist, "CFBundleExecutable"@) {
        Some(name) => Some(paths::joined(paths::joined(path, "Contents/MacOS"@), name)),
        None => None,
    }
}

pub open spec fn not_a_bundle(path: Seq<char>) -> AppInspectionView {
    AppInspectionView {
        path: path,
        name: match paths::file_stem(path) {
            Some(s) => s,
            None => "Unknown"@,
        },
        bundle_id: Seq::empty(),
        executable_path: None,
        icon_file: None,
        sandboxed: false,
        compatibility: "unknown"@,
        preset: "File or command"@,
        valid: false,
        warnings: seq!["Selected item is not a macOS .app bundle."@],
    }
}

pub open spec fn display_name(path: Seq<char>, plist: JsonValue) -> Seq<char> {
    match plist_text(plist, "CFBundleDisplayName"@) {
        Some(n) => n,
        None => match plist_text(plist, "CFBundleName"@) {
            Some(n) => n,
            None => match paths::file_stem(path) {
                Some(s) => s,
                None => "Unknown App"@,
            },
        },
    }
}

pub open spec fn bundle_identifier(plist: JsonValue) -> Seq<char> {
    match plist_text(plist, "CFBundleIdentifier"@) {
        Some(b) => b,
        None => Seq::empty(),
    }
}

pub open spec fn executable_notes(declared: bool, exists: bool) -> Seq<Seq<char>> {
    if !declared {
        seq!["Info.plist does not declare CFBundleExecutable."@]
    } else if !exists {
        seq!["Declared executable could not be found."@]
    } else {
        Seq::empty()
    }
}

pub open spec fn sandbox_notes(sandboxed: bool) -> Seq<Seq<char>> {
    if sandboxed {
        seq!["Sandboxed targets may not support custom HOME data redirection."@]
    } else {
        Seq::empty()
    }
}

pub open spec fn preset_notes(compatibility: Seq<char>) -> Seq<Seq<char>> {
    if compatibility == "unknown"@ {
        seq!["No app-specific preset found. Start with HOME override or command mode."@]
    } else {
        Seq::empty()
    }
}

/// What an inspection of an app bundle finds, given its property list.
pub open spec fn bundle_inspection(
    path: Seq<char>,
    plist: JsonValue,
    executable_exists: bool,
    entitlements: Result<JsonValue, String>,
) -> AppInspectionView {
    let name = display_name(path, plist);
    let bundle_id = bundle_identifier(plist);
    let executable = declared_executable(path, plist);
    let sandboxed = is_sandboxed(entitlements);
    let classified = compatibility(name_haystack(name, bundle_id), sandboxed, plist);
    AppInspectionView {
        path: path,
        name: name,
        bundle_id: bundle_id,
        executable_path: executable,
        icon_file: plist_text(plist, "CFBundleIconFile"@),
        sandboxed: sandboxed,
        compatibility: classified.0,
        preset: classified.1,
        valid: executable is Some && executable_exists,
        warnings: executable_notes(executable is Some, executable_exists) + sandbox_notes(
            sandboxed,
        ) + entitlement_notes(entitlements) + preset_notes(classified.0),
    }
}

/// What an inspection of a selected path finds: a plain finding for anything that
/// is not an app bundle, the reason when the bundle's property list could not be
/// read, and otherwise what the bundle's contents say.
pub open spec fn inspection(path: Seq<char>, is_dir: bool, facts: BundleFacts) -> Result<
    AppInspectionView,
    Seq<char>,
> {
    if !app_bundle(path, is_dir) {
        Ok(not_a_bundle(path))
    } else {
        match facts.plist {
            Err(e) => Err(e@),
            Ok(plist) => Ok(
                bundle_inspection(path, plist, facts.executable_exists, facts.entitlements),
            ),
        }
    }
}

/// A string value of the property list, trimmed, unless missing or blank.
pub fn plist_string(plist: &JsonValue, key: &str) -> (r: Option<String>)
    ensures
        text::opt_view(r) == plist_text(*plist, key@),
{
    match plist.get(key) {
        Some(JsonValue::Str(s)) => {
            let v = chars_of(s.as_str());
            let t = trim_exec(&v);
            if t.len() > 0 {
                Some(string_of(&t))
            } else {
                None
            }
        },
        _ => None,
    }
}

/// Whether the entitlements enable the app sandbox.
pub fn detect_sandbox(entitlements: &Result<JsonValue, String>) -> (r: bool)
    ensures
        r == is_sandboxed(*entitlements),
{
    match entitlements {
        Ok(plist) => match plist.get("com.apple.security.app-sandbox") {
            Some(JsonValue::Bool(b)) => *b,
            _ => false,
        },
        Err(_) => false,
    }
}

/// Whether an entitlement value grants anything.
pub fn entitlement_has_values(value: &JsonValue) -> (r: bool)
    ensures
        r == has_values(*value),
{
    match value {
        JsonValue::Array(items) => items.len() > 0,
        JsonValue::Str(item) => {
            let v = chars_of(item.as_str());
            let t = trim_exec(&v);
            t.len() > 0
        },
        JsonValue::Null => false,
        _ => true,
    }
}

fn grants_exec(entitlements: &JsonValue, key: &str) -> (r: bool)
    ensures
        r == grants(*entitlements, key@),
{
    match entitlements.get(key) {
        Some(v) => entitlement_has_values(v),
        None => false,
    }
}

/// Whether the entitlements share Keychain access groups or application groups.
pub fn uses_shared_security_groups(entitlements: &Result<JsonValue, String>) -> (r: bool)
    ensures
        r == shares_security_groups(*entitlements),
{
    match entitlements {
        Ok(plist) => grants_exec(plist, "keychain-access-groups") || grants_exec(
            plist,
            "com.apple.security.application-groups",
        ),
        Err(_) => false,
    }
}

/// The warnings that the entitlements call for.
pub fn entitlement_warnings(entitlements: &Result<JsonValue, String>) -> (r: Vec<String>)
    ensures
        text::string_views(r@) == entitlement_notes(*entitlements),
{
    let mut out: Vec<String> = Vec::new();
    assert(text::string_views(out@) =~= Seq::<Seq<char>>::empty());
    match entitlements {
        Err(error) => {
            let mut msg = owned(
                "Code-signing entitlements could not be inspected. Sandbox status and shared login storage could not be confirmed: ",
            );
            msg.append(error.as_str());
            push_string(&mut out, msg);
        },
        Ok(_) => {
            if uses_shared_security_groups(entitlements) {
                push_string(
                    &mut out,
                    owned(
                        "Target uses shared Keychain or app groups. CloneOnce can isolate files and profiles, but a wrapper cannot guarantee a separate login.",
                    ),
                );
            }
        },
    }
    out
}

fn has_key_exec(plist: &JsonValue, key: &str) -> (r: bool)
    ensures
        r == has_key(*plist, key@),
{
    plist.get(key).is_some()
}

/// The compatibility and preset for an app whose lowercased name and bundle
/// identifier are `haystack`.
pub fn classify_compatibility(haystack: &str, sandboxed: bool, plist: &JsonValue) -> (r: (
    String,
    String,
))
    ensures
        (r.0@, r.1@) == compatibility(haystack@, sandboxed, *plist),
{
    if sandboxed {
        return (owned("limited"), owned("Sandboxed app container"));
    }
    let electron = has_key_exec(plist, "ElectronAsarIntegrity");
    let chromium_runtime = electron || has_key_exec(plist, "ChromiumBaseVersion") || has_key_exec(
        plist,
        "ChromiumBaseBundleVersion",
    ) || has_key_exec(plist, "CrProductDirName");
    if electron {
        return (owned("supported"), owned("Electron isolated HOME + --user-data-dir"));
    }
    let h = chars_of(haystack);
    let chromium_named = contains_str(&h, "chrome") || contains_str(&h, "chromium")
        || contains_str(&h, "brave") || contains_str(&h, "edge") || contains_str(&h, "vivaldi")
        || contains_str(&h, "opera") || contains_str(&h, "arc");
    if chromium_named || chromium_runtime {
        return (owned("supported"), owned("Chromium --user-data-dir"));
    }
    if contains_str(&h, "firefox") || contains_str(&h, "librewolf") || contains_str(
        &h,
        "waterfox",
    ) {
        return (owned("supported"), owned("Firefox -profile"));
    }
    (owned("unknown"), owned("Generic HOME override"))
}

/// The compatibility and preset for an app, from its name, bundle identifier,
/// sandboxing and property list.
pub fn infer_compatibility(name: &str, bundle_id: &str, sandboxed: bool, plist: &JsonValue) -> (r: (
    String,
    String,
))
    ensures
        (r.0@, r.1@) == compatibility(name_haystack(name@, bundle_id@), sandboxed, *plist),
{
    let mut joined = owned(name);
    joined.append(" ");
    joined.append(bundle_id);
    let haystack = to_lowercase(joined.as_str());
    classify_compatibility(haystack.as_str(), sandboxed, plist)
}

/// Whether a path is an app bundle: a directory (`is_dir`, as the file system
/// reports it) with the extension `app` in any ASCII case.
pub fn is_app_bundle(path: &str, is_dir: bool) -> (r: bool)
    ensures
        r == app_bundle(path@, is_dir),
{
    if !is_dir {
        return false;
    }
    match path_extension(path) {
        Some(ext) => {
            let app = chars_of("app");
            chars_eq_ignore_ascii_case(&ext, &app)
        },
        None => false,
    }
}

/// The executable that an app bundle's property list declares.
pub fn declared_executable_path(path: &str, plist: &JsonValue) -> (r: Option<String>)
    ensures
        text::opt_view(r) == declared_executable(path@, *plist),
{
    match plist_string(plist, "CFBundleExecutable") {
        Some(name) => {
            let dir = path_join(path, "Contents/MacOS");
            Some(path_join(dir.as_str(), name.as_str()))
        },
        None => None,
    }
}

fn inspect_bundle(
    path: &str,
    plist: &JsonValue,
    executable_exists: bool,
    entitlements: &Result<JsonValue, String>,
) -> (r: AppInspection)
    ensures
        r@ == bundle_inspection(path@, *plist, executable_exists, *entitlements),
{
    let name = match plist_string(plist, "CFBundleDisplayName") {
        Some(n) => n,
        None => match plist_string(plist, "CFBundleName") {
            Some(n) => n,
            None => match path_file_stem(path) {
                Some(s) => s,
                None => owned("Unknown App"),
            },
        },
    };
    let bundle_id = match plist_string(plist, "CFBundleIdentifier") {
        Some(b) => b,
        None => String::new(),
    };
    let executable_path = declared_executable_path(path, plist);
    let declared = executable_path.is_some();
    let valid = declared && executable_exists;
    let mut warnings: Vec<String> = Vec::new();
    assert(text::string_views(warnings@) =~= Seq::<Seq<char>>::empty());
    if !declared {
        push_string(&mut warnings, owned("Info.plist does not declare CFBundleExecutable."));
    } else if !executable_exists {
        push_string(&mut warnings, owned("Declared executable could not be found."));
    }
    let icon_file = plist_string(plist, "CFBundleIconFile");
    let sandboxed = detect_sandbox(entitlements);
    let (compatibility, preset) = infer_compatibility(
        name.as_str(),
        bundle_id.as_str(),
        sandboxed,
        plist,
    );
    let ghost w0 = text::string_views(warnings@);
    if sandboxed {
        push_string(
            &mut warnings,
            owned("Sandboxed targets may not support custom HOME data redirection."),
        );
    }
    let ghost w1 = text::string_views(warnings@);
    assert(w1 =~= w0 + sandbox_notes(sandboxed));
    let notes = entitlement_warnings(entitlements);
    let mut k: usize = 0;
    while k < notes.len()
        invariant
            k <= notes.len(),
            text::string_views(warnings@) == w1 + text::string_views(notes@).take(k as int),
        decreases notes.len() - k,
    {
        let note = notes[k].clone();
        push_string(&mut warnings, note);
        k += 1;
        assert(text::string_views(warnings@) =~= w1 + text::string_views(notes@).take(k as int));
    }
    assert(text::string_views(notes@).take(k as int) =~= text::string_views(notes@));
    let ghost w2 = text::string_views(warnings@);
    let unknown = chars_of("unknown");
    let compat_chars = chars_of(compatibility.as_str());
    if text::chars_eq(&compat_chars, &unknown) {
        push_string(
            &mut warnings,
            owned("No app-specific preset found. Start with HOME override or command mode."),
        );
    }
    assert(text::string_views(warnings@) =~= w2 + preset_notes(compatibility@));
    AppInspection {
        path: owned(path),
        name,
        bundle_id,
        executable_path,
        icon_file,
        sandboxed,
        compatibility,
        preset,
        valid,
        warnings,
    }
}

/// Inspects a selected target. `is_dir` says whether the path is a directory;
/// `facts` holds what was read from inside the bundle, and is consulted only when
/// the path is an app bundle.
pub fn inspect_app_bundle_at(path: &str, is_dir: bool, facts: &BundleFacts) -> (r: Result<
    AppInspection,
    String,
>)
    ensures
        match r {
            Ok(a) => inspection(path@, is_dir, *facts) == Ok::<AppInspectionView, Seq<char>>(a@),
            Err(e) => inspection(path@, is_dir, *facts) == Err::<AppInspectionView, Seq<char>>(e@),
        },
{
    if !is_app_bundle(path, is_dir) {
        let name = match path_file_stem(path) {
            Some(s) => s,
            None => owned("Unknown"),
        };
        let mut warnings: Vec<String> = Vec::new();
        assert(text::string_views(warnings@) =~= Seq::<Seq<char>>::empty());
        push_string(&mut warnings, owned("Selected item is not a macOS .app bundle."));
        let r = AppInspection {
            path: owned(path),
            name,
            bundle_id: String::new(),
            executable_path: None,
            icon_file: None,
            sandboxed: false,
            compatibility: owned("unknown"),
            preset: owned("File or command"),
            valid: false,
            warnings,
        };
        assert(r@ =~= not_a_bundle(path@));
        return Ok(r);
    }
    match &facts.plist {
        Err(e) => Err(e.clone()),
        Ok(plist) => Ok(inspect_bundle(path, plist, facts.executable_exists, &facts.entitlements)),
    }
}

/// A sandboxed bundle is inspected as of limited compatibility, with a warning
/// that its data may not be redirected; an inspection is valid exactly when the
/// bundle declares an executable that exists.
pub proof fn sandboxed_bundles_are_limited(
    path: Seq<char>,
    plist: JsonValue,
    executable_exists: bool,
    entitlements: Result<JsonValue, String>,
)
    ensures
        is_sandboxed(entitlements) ==> bundle_inspection(
            path,
            plist,
            executable_exists,
            entitlements,
        ).compatibility == "limited"@ && bundle_inspection(
            path,
            plist,
            executable_exists,
            entitlements,
        ).warnings.contains("Sandboxed targets may not support custom HOME data redirection."@),
        bundle_inspection(path, plist, executable_exists, entitlements).valid <==> (
        declared_executable(path, plist) is Some && executable_exists),
{
    let v = bundle_inspection(path, plist, executable_exists, entitlements);
    if is_sandboxed(entitlements) {
        let a = executable_notes(declared_executable(path, plist) is Some, executable_exists);
        let note = "Sandboxed targets may not support custom HOME data redirection."@;
        assert(v.warnings[a.len() as int] == note);
    }
}

/// The preset follows the app, in this order of precedence: a sandboxed app is
/// `limited`; an Electron runtime (`ElectronAsarIntegrity`) gets the isolated home;
/// a Chromium runtime marker, or a name or identifier naming Chrome, Chromium,
/// Brave, Edge, Vivaldi, Opera or Arc, gets `--user-data-dir`; one naming
/// Firefox, LibreWolf or Waterfox gets `-profile`; any other app the generic
/// `HOME` override.
pub proof fn presets_follow_the_app(haystack: Seq<char>, sandboxed: bool, plist: JsonValue)
    ensures
        sandboxed ==> compatibility(haystack, sandboxed, plist) == ("limited"@, "Sandboxed app container"@),
        !sandboxed && json::json_get(plist, "ElectronAsarIntegrity"@) is Some ==> compatibility(
            haystack,
            sandboxed,
            plist,
        ) == ("supported"@, "Electron isolated HOME + --user-data-dir"@),
        !sandboxed && json::json_get(plist, "ElectronAsarIntegrity"@) is None && (json::json_get(
            plist,
            "ChromiumBaseVersion"@,
        ) is Some || json::json_get(plist, "ChromiumBaseBundleVersion"@) is Some
            || json::json_get(plist, "CrProductDirName"@) is Some || text::contains(
            haystack,
            "chrome"@,
        ) || text::contains(haystack, "chromium"@) || text::contains(haystack, "brave"@)
            || text::contains(haystack, "edge"@) || text::contains(haystack, "vivaldi"@)
            || text::contains(haystack, "opera"@) || text::contains(haystack, "arc"@))
            ==> compatibility(haystack, sandboxed, plist) == ("supported"@, "Chromium --user-data-dir"@),
        !sandboxed && json::json_get(plist, "ElectronAsarIntegrity"@) is None && json::json_get(
            plist,
            "ChromiumBaseVersion"@,
        ) is None && json::json_get(plist, "ChromiumBaseBundleVersion"@) is None && json::json_get(
            plist,
            "CrProductDirName"@,
        ) is None && !text::contains(haystack, "chrome"@) && !text::contains(haystack, "chromium"@)
            && !text::contains(haystack, "brave"@) && !text::contains(haystack, "edge"@)
            && !text::contains(haystack, "vivaldi"@) && !text::contains(haystack, "opera"@)
            && !text::contains(haystack, "arc"@) ==> compatibility(haystack, sandboxed, plist) == (
            if text::contains(haystack, "firefox"@) || text::contains(haystack, "librewolf"@)
                || text::contains(haystack, "waterfox"@) {
                ("supported"@, "Firefox -profile"@)
            } else {
                ("unknown"@, "Generic HOME override"@)
            }
        ),
{
}

/// A directory whose file name is longer than `.app` and ends in `.app` is an app
/// bundle.
pub proof fn app_named_directories_are_bundles(path: Seq<char>)
    ensures
        paths::file_name(path) matches Some(n) && n.len() > 4 && n.skip(n.len() - 4) == seq![
            '.',
            'a',
            'p',
            'p',
        ] ==> app_bundle(path, true),
{
    paths::names_ending_in_app_have_extension_app(path);
    reveal_strlit("app");
    assert("app"@ =~= seq!['a', 'p', 'p']);
}

} // verus!
