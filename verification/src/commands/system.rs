//! Shell-level commands: version info, external links, notifications, logs,
//! device-local settings, and the native chrome and power toggles.
use crate::duplicate::Duplicate;
use crate::logging;
use crate::paths;
use crate::paths::Host;
use crate::probe;
use crate::text;
use vstd::prelude::*;

verus! {

/// What the shell says of itself.
#[derive(Debug, Clone, PartialEq, Eq)]
pub struct DesktopVersionInfo {
    pub app_version: String,
    pub electron_version: String,
    pub node_version: String,
    pub platform: String,
    pub hermes_root: String,
    pub shell: String,
    pub tauri_version: String,
}

/// A notification to be shown.
#[derive(Debug, Clone, PartialEq, Eq)]
pub struct NotifyPayload {
    pub title: Option<String>,
    pub body: Option<String>,
}

/// What the renderer's error boundary reports.
#[derive(Debug, Clone, PartialEq, Eq)]
pub struct RendererErrorReport {
    pub message: Option<String>,
    pub component_stack: Option<String>,
    pub stack: Option<String>,
}

/// The default project directory as the renderer sees it.
#[derive(Debug, Clone, PartialEq, Eq)]
pub struct DefaultProjectDirState {
    /// Shown when nothing is configured: the home directory.
    pub default_label: String,
    /// The configured directory, or `None` when unset or no longer present.
    pub dir: Option<String>,
    /// Where a new session would start.
    pub resolved_cwd: String,
}

/// What was stored as the default project directory.
#[derive(Debug, Clone, PartialEq, Eq)]
pub struct DefaultProjectDirUpdate {
    pub dir: Option<String>,
}

/// What was picked as the default project directory.
#[derive(Debug, Clone, PartialEq, Eq)]
pub struct DefaultProjectDirPick {
    pub canceled: bool,
    pub dir: Option<String>,
}

/// What a file dialog is asked for.
#[derive(Debug, Clone, PartialEq, Eq)]
pub struct PathPickerOptions {
    /// Pick folders instead of files.
    pub directories: bool,
    /// Absent means several.
    pub multiple: Option<bool>,
    pub default_path: Option<String>,
    pub title: Option<String>,
    pub filters: Option<Vec<PathPickerFilter>>,
}

/// A kind of file that a dialog offers.
#[derive(Debug, Clone, PartialEq, Eq)]
pub struct PathPickerFilter {
    pub name: String,
    pub extensions: Vec<String>,
}

/// What a `PathPickerFilter` says.
#[verifier::ext_equal]
pub struct PathPickerFilterView {
    pub name: Seq<char>,
    pub extensions: Seq<Seq<char>>,
}

impl DeepView for PathPickerFilter {
    type V = PathPickerFilterView;

    open spec fn deep_view(&self) -> PathPickerFilterView {
        PathPickerFilterView { name: self.name@, extensions: self.extensions.deep_view() }
    }
}

impl Duplicate for PathPickerFilter {
    fn duplicate(&self) -> (r: Self) {
        PathPickerFilter { name: self.name.clone(), extensions: self.extensions.duplicate() }
    }
}

impl Default for PathPickerOptions {
    fn default() -> (r: Self)
        ensures
            !r.directories,
            r.multiple is None,
            r.default_path is None,
            r.title is None,
            r.filters is None,
    {
        PathPickerOptions {
            directories: false,
            multiple: None,
            default_path: None,
            title: None,
            filters: None,
        }
    }
}

// ---------------------------------------------------------------------------
// Version, links, notifications
// ---------------------------------------------------------------------------
/// The platform's name as the renderer knows it.
pub open spec fn renderer_platform(os: Seq<char>) -> Seq<char> {
    if os == "windows"@ {
        "win32"@
    } else if os == "macos"@ {
        "darwin"@
    } else {
        os
    }
}

/// The platform's name as the renderer knows it, so that its branches on
/// `win32` and `darwin` work.
pub fn platform_name(os: &str) -> (r: String)
    ensures
        r@ == renderer_platform(os@),
{
    if text::str_eq(os, "windows") {
        "win32".to_owned()
    } else if text::str_eq(os, "macos") {
        "darwin".to_owned()
    } else {
        os.to_owned()
    }
}

/// What the shell says of itself. The versions of runtimes that it does not
/// have are empty, not absent, so that the renderer can test them.
pub fn hermes_version(app_version: &str, tauri_version: &str, os: &str, host: &Host) -> (r:
    DesktopVersionInfo)
    ensures
        r.app_version@ == app_version@,
        r.electron_version@.len() == 0,
        r.node_version@.len() == 0,
        r.platform@ == renderer_platform(os@),
        r.hermes_root@ == host.hermes_home_path(),
        r.shell@ == "tauri"@,
        r.tauri_version@ == tauri_version@,
{
    DesktopVersionInfo {
        app_version: app_version.to_owned(),
        electron_version: String::new(),
        node_version: String::new(),
        platform: platform_name(os),
        hermes_root: paths::hermes_home(host),
        shell: "tauri".to_owned(),
        tauri_version: tauri_version.to_owned(),
    }
}

/// The URL that is handed to the platform, or why none is.
pub fn hermes_open_external(url: &str) -> (r: Result<String, String>)
    ensures
        match r {
            Ok(opened) => !text::is_blank(url@) && opened@ == text::trimmed(url@),
            Err(error) => text::is_blank(url@) && error@ == "refusing to open an empty URL"@,
        },
{
    let trimmed = text::trim(url);
    if text::is_empty(trimmed.as_str()) {
        Err("refusing to open an empty URL".to_owned())
    } else {
        Ok(trimmed)
    }
}

/// The title and the body of a notification.
pub fn hermes_notify(payload: &NotifyPayload) -> (r: (String, String))
    ensures
        r.0@ == (match payload.title {
            Some(title) => title@,
            None => "Hermes"@,
        }),
        r.1@ == (match payload.body {
            Some(body) => body@,
            None => Seq::empty(),
        }),
{
    let title = match &payload.title {
        Some(title) => title.clone(),
        None => "Hermes".to_owned(),
    };
    let body = match &payload.body {
        Some(body) => body.clone(),
        None => String::new(),
    };
    (title, body)
}

// ---------------------------------------------------------------------------
// Logs
// ---------------------------------------------------------------------------
/// How much of the log the viewer shows, in bytes.
pub const RECENT_LOG_BYTES: usize = 262144;

/// The tail of the desktop log, newest last. `contents` is the log, where it
/// could be read.
pub fn hermes_logs_recent(contents: Option<&str>) -> (r: Vec<String>)
    ensures
        r.deep_view() == (match contents {
            Some(text) => text::scan::lines(
                text::bytes::last_bytes(text@, RECENT_LOG_BYTES as int),
            ),
            None => Seq::empty(),
        }),
{
    let tail = logging::recent(contents, RECENT_LOG_BYTES);
    text::scan::split_lines(tail.as_str())
}

/// What the log says of an optional part of a report.
pub open spec fn report_line(label: Seq<char>, part: Option<Seq<char>>) -> Seq<Seq<char>> {
    match part {
        Some(text) => seq!["ERROR "@ + (label + text)],
        None => Seq::empty(),
    }
}

/// What the log says of an error in the renderer.
pub open spec fn report_lines(report: RendererErrorReport) -> Seq<Seq<char>> {
    report_line(
        "renderer: "@,
        Some(
            match report.message {
                Some(message) => message@,
                None => "unknown renderer error"@,
            },
        ),
    ) + report_line("renderer stack: "@, report.stack.deep_view()) + report_line(
        "renderer component stack: "@,
        report.component_stack.deep_view(),
    )
}

fn push_report_line(lines: &mut Vec<String>, label: &str, part: Option<&str>)
    ensures
        final(lines).deep_view() == old(lines).deep_view() + report_line(label@, part.deep_view()),
{
    let ghost before = lines.deep_view();
    match part {
        Some(text) => {
            let line = text::cat(label, text);
            lines.push(logging::error(line.as_str()));
            proof {
                assert(lines.deep_view() =~= before + report_line(label@, part.deep_view()));
            }
        },
        None => {
            proof {
                assert(lines.deep_view() =~= before + report_line(label@, part.deep_view()));
            }
        },
    }
}

/// What the log says of an error in the renderer. It never fails: a crash
/// reporter that throws is worse than one that drops a line.
pub fn hermes_logs_renderer_error(report: &RendererErrorReport) -> (r: Vec<String>)
    ensures
        r.deep_view() == report_lines(*report),
{
    let mut lines: Vec<String> = Vec::new();
    proof {
        assert(lines.deep_view() =~= Seq::<Seq<char>>::empty());
    }
    let message = match &report.message {
        Some(message) => message.as_str(),
        None => "unknown renderer error",
    };
    push_report_line(&mut lines, "renderer: ", Some(message));
    push_report_line(&mut lines, "renderer stack: ", text::borrowed(&report.stack));
    push_report_line(
        &mut lines,
        "renderer component stack: ",
        text::borrowed(&report.component_stack),
    );
    proof {
        assert(lines.deep_view() =~= report_lines(*report));
    }
    lines
}

// ---------------------------------------------------------------------------
// The default project directory
// ---------------------------------------------------------------------------
/// Where device-local settings are kept. Not the Hermes home: these are
/// preferences of a device and must not travel with a profile.
pub open spec fn device_dir(data_dir: Option<Seq<char>>, host: Host) -> Seq<char> {
    paths::joined(
        match data_dir {
            Some(dir) => dir,
            None => paths::joined(host.home@, ".local/share"@, host.is_windows),
        },
        "Hermes"@,
        host.is_windows,
    )
}

/// Where device-local settings are kept. `data_dir` is the platform's data
/// directory, where it reports one.
pub fn device_state_dir(data_dir: Option<&str>, host: &Host) -> (r: String)
    ensures
        r@ == device_dir(data_dir.deep_view(), *host),
{
    let base = match data_dir {
        Some(dir) => dir.to_owned(),
        None => paths::join(host.home.as_str(), ".local/share", host.is_windows),
    };
    paths::join(base.as_str(), "Hermes", host.is_windows)
}

/// The file that holds the default project directory.
pub fn default_project_dir_file(data_dir: Option<&str>, host: &Host) -> (r: String)
    ensures
        r@ == paths::joined(
            device_dir(data_dir.deep_view(), *host),
            "default-project-dir.txt"@,
            host.is_windows,
        ),
{
    let dir = device_state_dir(data_dir, host);
    paths::join(dir.as_str(), "default-project-dir.txt", host.is_windows)
}

/// Device-local settings stay where they are, whatever Hermes home and runtime
/// the shell is pointed at.
pub proof fn device_settings_do_not_follow_the_hermes_home(
    data_dir: Option<Seq<char>>,
    first: Host,
    second: Host,
)
    requires
        first.is_windows == second.is_windows,
        first.home@ == second.home@,
    ensures
        device_dir(data_dir, first) == device_dir(data_dir, second),
{
}

/// Whether `dir` is what the stored text stands for: the directory that it
/// names, if it names one and the directory is there.
pub open spec fn is_stored_dir<F: Fn(&str) -> bool>(
    stored: Option<Seq<char>>,
    is_dir: F,
    dir: Option<Seq<char>>,
) -> bool {
    match text::non_blank(stored) {
        None => dir is None,
        Some(named) => {
            ||| probe::says(is_dir, named, true) && dir == Some(named)
            ||| probe::says(is_dir, named, false) && dir is None
        },
    }
}

/// The stored default project directory: `None` when it was never set, holds
/// only white space, or names a directory that is gone. `stored` is the text of
/// the file, where it could be read.
pub fn read_default_project_dir<F: Fn(&str) -> bool>(stored: Option<&str>, is_dir: &F) -> (r: Option<
    String,
>)
    requires
        forall|p: &str| call_requires(*is_dir, (p,)),
    ensures
        is_stored_dir(stored.deep_view(), *is_dir, r.deep_view()),
{
    match text::trim_option(stored) {
        None => None,
        Some(named) => {
            let asked = named.as_str();
            let there = is_dir(asked);
            proof {
                assert(call_ensures(*is_dir, (asked,), there));
            }
            if there {
                Some(named)
            } else {
                None
            }
        },
    }
}

/// The text that is stored for a setting: an empty one is how "cleared" reads
/// back.
pub fn write_default_project_dir(dir: Option<&str>) -> (r: String)
    ensures
        r@ == (match dir {
            Some(dir) => dir@,
            None => Seq::empty(),
        }),
{
    match dir {
        Some(dir) => dir.to_owned(),
        None => String::new(),
    }
}

/// Where a new session starts: in the configured directory, or at home.
pub fn resolve_default_cwd(default_dir: Option<&str>, home: &str) -> (r: String)
    ensures
        r@ == (match default_dir {
            Some(dir) => dir@,
            None => home@,
        }),
{
    match default_dir {
        Some(dir) => dir.to_owned(),
        None => home.to_owned(),
    }
}

/// The default project directory as the renderer sees it.
pub fn hermes_setting_default_project_dir_get<F: Fn(&str) -> bool>(
    stored: Option<&str>,
    home: &str,
    is_dir: &F,
) -> (r: DefaultProjectDirState)
    requires
        forall|p: &str| call_requires(*is_dir, (p,)),
    ensures
        is_stored_dir(stored.deep_view(), *is_dir, r.dir.deep_view()),
        r.default_label@ == home@,
        r.resolved_cwd@ == (match r.dir {
            Some(dir) => dir@,
            None => home@,
        }),
{
    let dir = read_default_project_dir(stored, is_dir);
    let resolved_cwd = resolve_default_cwd(text::borrowed(&dir), home);
    DefaultProjectDirState { default_label: home.to_owned(), dir, resolved_cwd }
}

/// What a request stores as the default project directory: a blank one clears
/// the setting.
pub fn hermes_setting_default_project_dir_set(dir: Option<&str>) -> (r: DefaultProjectDirUpdate)
    ensures
        r.dir.deep_view() == text::non_blank(dir.deep_view()),
{
    DefaultProjectDirUpdate { dir: text::trim_option(dir) }
}

/// What was picked: the first path, or nothing where the dialog was cancelled.
pub fn hermes_setting_default_project_dir_pick(picked: &Vec<String>) -> (r: DefaultProjectDirPick)
    ensures
        r.canceled == (picked@.len() == 0),
        r.dir.deep_view() == (if picked@.len() == 0 {
            None
        } else {
            Some(picked@[0]@)
        }),
{
    if picked.len() == 0 {
        DefaultProjectDirPick { canceled: true, dir: None }
    } else {
        DefaultProjectDirPick { canceled: false, dir: Some(picked[0].clone()) }
    }
}

proof fn lemma_strip_start_end(s: Seq<char>, drop: spec_fn(char) -> bool)
    ensures
        text::strip_start(s, drop).len() <= s.len(),
        text::strip_start(s, drop).len() > 0 ==> !drop(text::strip_start(s, drop)[0]),
        text::strip_start(s, drop).len() > 0 ==> text::strip_start(s, drop).last() == s.last(),
    decreases s.len(),
{
    if s.len() > 0 && drop(s[0]) {
        lemma_strip_start_end(s.drop_first(), drop);
    }
}

proof fn lemma_strip_end_ends(s: Seq<char>, drop: spec_fn(char) -> bool)
    ensures
        text::strip_end(s, drop).len() <= s.len(),
        text::strip_end(s, drop).len() > 0 ==> !drop(text::strip_end(s, drop).last()),
        text::strip_end(s, drop).len() > 0 ==> text::strip_end(s, drop)[0] == s[0],
    decreases s.len(),
{
    if s.len() > 0 && drop(s.last()) {
        lemma_strip_end_ends(s.drop_last(), drop);
    }
}

/// What is stored is what is read back: a directory that a request stores, as
/// long as it is there, and nothing where the setting was cleared.
pub proof fn a_saved_directory_reads_back(dir: Option<Seq<char>>)
    ensures
        ({
            let stored = text::non_blank(dir);
            let written = match stored {
                Some(named) => named,
                None => Seq::empty(),
            };
            text::non_blank(Some(written)) == stored
        }),
{
    let white = text::white();
    match text::non_blank(dir) {
        Some(named) => {
            let front = text::strip_start(dir->0, white);
            lemma_strip_start_end(dir->0, white);
            lemma_strip_end_ends(front, white);
            assert(!white(named[0]));
            text::lemma_strip_start(named, white, 0);
            assert(named.subrange(0, named.len() as int) =~= named);
            text::lemma_strip_end(named, white, named.len() as int);
        },
        None => {
            let none = Seq::<char>::empty();
            assert(text::trimmed(none) =~= none);
        },
    }
}

// ---------------------------------------------------------------------------
// File dialogs
// ---------------------------------------------------------------------------
/// Which dialog is shown.
#[derive(Debug, Clone, Copy, PartialEq, Eq, Structural)]
pub enum PickKind {
    File,
    Files,
    Folder,
    Folders,
    /// Where to save a file.
    Save,
}

/// A file dialog to be shown.
#[derive(Debug, Clone, PartialEq, Eq)]
pub struct DialogPlan {
    pub kind: PickKind,
    pub title: Option<String>,
    pub directory: Option<String>,
    /// The kinds of file that are offered. None means every file.
    pub filters: Vec<PathPickerFilter>,
}

/// A text that is used as it is, unless it is blank.
pub open spec fn unless_blank(value: Option<Seq<char>>) -> Option<Seq<char>> {
    match value {
        Some(text) => if text::is_blank(text) {
            None
        } else {
            Some(text)
        },
        None => None,
    }
}

fn keep_unless_blank(value: &Option<String>) -> (r: Option<String>)
    ensures
        r.deep_view() == unless_blank(value.deep_view()),
{
    match value {
        Some(text) => {
            let trimmed = text::trim(text.as_str());
            if text::is_empty(trimmed.as_str()) {
                None
            } else {
                Some(text.clone())
            }
        },
        None => None,
    }
}

/// The kinds of file that options ask for.
pub open spec fn asked_filters(options: PathPickerOptions) -> Seq<PathPickerFilterView> {
    match options.filters.deep_view() {
        Some(filters) => filters,
        None => Seq::empty(),
    }
}

fn filters_of(options: &PathPickerOptions) -> (r: Vec<PathPickerFilter>)
    ensures
        r.deep_view() == asked_filters(*options),
{
    match &options.filters {
        Some(filters) => filters.duplicate(),
        None => {
            let none: Vec<PathPickerFilter> = Vec::new();
            proof {
                assert(none.deep_view() =~= asked_filters(*options));
            }
            none
        },
    }
}

/// The dialog for opening paths: several files, unless the options say
/// otherwise.
pub fn hermes_select_paths(options: &PathPickerOptions) -> (r: DialogPlan)
    ensures
        r.kind == (if options.directories {
            if options.multiple == Some(false) {
                PickKind::Folder
            } else {
                PickKind::Folders
            }
        } else if options.multiple == Some(false) {
            PickKind::File
        } else {
            PickKind::Files
        }),
        r.title.deep_view() == unless_blank(options.title.deep_view()),
        r.directory.deep_view() == unless_blank(options.default_path.deep_view()),
        r.filters.deep_view() == asked_filters(*options),
{
    let multiple = match options.multiple {
        Some(flag) => flag,
        None => true,
    };
    let kind = if options.directories {
        if multiple {
            PickKind::Folders
        } else {
            PickKind::Folder
        }
    } else if multiple {
        PickKind::Files
    } else {
        PickKind::File
    };
    DialogPlan {
        kind,
        title: keep_unless_blank(&options.title),
        directory: keep_unless_blank(&options.default_path),
        filters: filters_of(options),
    }
}

/// The dialog for saving a path.
pub fn hermes_select_save_path(options: &PathPickerOptions) -> (r: DialogPlan)
    ensures
        r.kind == PickKind::Save,
        r.title.deep_view() == unless_blank(options.title.deep_view()),
        r.directory.deep_view() == unless_blank(options.default_path.deep_view()),
        r.filters.deep_view() == asked_filters(*options),
{
    DialogPlan {
        kind: PickKind::Save,
        title: keep_unless_blank(&options.title),
        directory: keep_unless_blank(&options.default_path),
        filters: filters_of(options),
    }
}

/// The dialog for picking the default project directory: one folder, starting
/// from the configured one or from home.
pub fn project_dir_dialog(configured: Option<&str>, home: &str) -> (r: DialogPlan)
    ensures
        r.kind == PickKind::Folder,
        r.title is None,
        r.directory.deep_view() == unless_blank(
            Some(
                match configured {
                    Some(dir) => dir@,
                    None => home@,
                },
            ),
        ),
        r.filters@.len() == 0,
{
    let start = resolve_default_cwd(configured, home);
    DialogPlan {
        kind: PickKind::Folder,
        title: None,
        directory: keep_unless_blank(&Some(start)),
        filters: Vec::new(),
    }
}

// ---------------------------------------------------------------------------
// Native chrome and power
// ---------------------------------------------------------------------------
/// A theme that the native chrome is pinned to.
#[derive(Debug, Clone, Copy, PartialEq, Eq, Structural)]
pub enum NativeTheme {
    Dark,
    Light,
}

/// The theme that the native chrome is pinned to. Anything but `dark` and
/// `light` is the absence of a pin, so that an unknown mode can never leave the
/// chrome stuck on a stale theme.
pub fn hermes_native_theme_set(mode: Option<&str>) -> (r: Option<NativeTheme>)
    ensures
        r == (match mode {
            Some(mode) => if text::trimmed(mode@) == "dark"@ {
                Some(NativeTheme::Dark)
            } else if text::trimmed(mode@) == "light"@ {
                Some(NativeTheme::Light)
            } else {
                None
            },
            None => None,
        }),
{
    match mode {
        None => None,
        Some(mode) => {
            let trimmed = text::trim(mode);
            if text::str_eq(trimmed.as_str(), "dark") {
                Some(NativeTheme::Dark)
            } else if text::str_eq(trimmed.as_str(), "light") {
                Some(NativeTheme::Light)
            } else {
                None
            }
        },
    }
}

/// What the system is asked to keep on.
#[derive(Debug, Clone, Copy, PartialEq, Eq, Structural)]
pub struct KeepAwakeRequest {
    /// The request holds until the next one.
    pub continuous: bool,
    pub system_required: bool,
    pub display_required: bool,
}

/// What keeping the display awake asks of the system, and what taking that back
/// asks of it. The display comes with the system: it cannot stay lit on a system
/// that is still allowed to sleep.
pub fn hermes_keep_awake_set(on: bool) -> (r: KeepAwakeRequest)
    ensures
        r == (KeepAwakeRequest { continuous: true, system_required: on, display_required: on }),
{
    KeepAwakeRequest { continuous: true, system_required: on, display_required: on }
}

/// Whether the machine draws from its battery. `ac_line_status` is 1 on mains, 0
/// on battery and 255 when unknown, where it could be read: only an explicit 0
/// counts, so that an unknown status never slows a desktop down.
pub fn hermes_power_battery_get(ac_line_status: Option<u8>) -> (r: bool)
    ensures
        r == (ac_line_status == Some(0u8)),
{
    match ac_line_status {
        Some(status) => status == 0,
        None => false,
    }
}

// ---------------------------------------------------------------------------
// Remote displays
// ---------------------------------------------------------------------------
/// The environment that tells a remote display.
#[derive(Debug, Clone, PartialEq, Eq)]
pub struct DisplayEnv {
    /// `HERMES_DESKTOP_DISABLE_GPU`.
    pub disable_gpu: Option<String>,
    /// `SSH_CONNECTION`.
    pub ssh_connection: Option<String>,
    /// `SSH_CLIENT`.
    pub ssh_client: Option<String>,
    /// `SSH_TTY`.
    pub ssh_tty: Option<String>,
    /// `DISPLAY`.
    pub display: Option<String>,
    /// `SESSIONNAME`.
    pub session_name: Option<String>,
}

/// Whether a variable is set: an empty one is not.
pub open spec fn is_set(value: Option<Seq<char>>) -> bool {
    value matches Some(text) && text.len() > 0
}

/// The value of a variable, empty where it is not set.
pub open spec fn value_or_empty(value: Option<Seq<char>>) -> Seq<char> {
    match value {
        Some(text) => text,
        None => Seq::empty(),
    }
}

/// Whether a word forces software rendering.
pub open spec fn forces_on(word: Seq<char>) -> bool {
    word == "1"@ || word == "true"@ || word == "yes"@ || word == "on"@
}

/// Whether a word forbids software rendering.
pub open spec fn forces_off(word: Seq<char>) -> bool {
    word == "0"@ || word == "false"@ || word == "no"@ || word == "off"@
}

/// Whether a display is forwarded: its name has a host in front of the colon.
pub open spec fn is_forwarded(display: Seq<char>) -> bool {
    display.contains(':') && text::scan::first_index(display, ':') > 0
}

/// Why a display counts as remote, given the override and the session name in
/// lower case: the override decides first, then a forwarded shell, then on each
/// platform its own tell.
pub open spec fn display_reason(
    env: DisplayEnv,
    platform: Seq<char>,
    override_word: Seq<char>,
    lower_session: Seq<char>,
) -> Option<Seq<char>> {
    let display = value_or_empty(env.display.deep_view());
    let session = value_or_empty(env.session_name.deep_view());
    if forces_on(override_word) {
        Some("override (HERMES_DESKTOP_DISABLE_GPU)"@)
    } else if forces_off(override_word) {
        None
    } else if is_set(env.ssh_connection.deep_view()) || is_set(env.ssh_client.deep_view())
        || is_set(env.ssh_tty.deep_view()) {
        Some("ssh-session"@)
    } else if platform == "linux"@ && is_forwarded(display) {
        Some("x11-forwarding (DISPLAY="@ + display + ")"@)
    } else if platform == "win32"@ && text::scan::occurs_at(lower_session, "rdp-"@, 0) {
        Some("rdp (SESSIONNAME="@ + session + ")"@)
    } else {
        None
    }
}

/// The override in lower case and without white space around it.
pub open spec fn override_word_of(env: DisplayEnv) -> Seq<char> {
    text::unicode::lowercase(text::trimmed(value_or_empty(env.disable_gpu.deep_view())))
}

/// The session name in lower case.
pub open spec fn lower_session_of(env: DisplayEnv) -> Seq<char> {
    text::unicode::lowercase(value_or_empty(env.session_name.deep_view()))
}

fn set(value: &Option<String>) -> (r: bool)
    ensures
        r == is_set(value.deep_view()),
{
    match value {
        Some(text) => !text::is_empty(text.as_str()),
        None => false,
    }
}

fn or_empty(value: &Option<String>) -> (r: String)
    ensures
        r@ == value_or_empty(value.deep_view()),
{
    match value {
        Some(text) => text.clone(),
        None => String::new(),
    }
}

/// Why a display counts as remote, given the override and the session name in
/// lower case.
pub fn reason_given(
    env: &DisplayEnv,
    platform: &str,
    override_word: &str,
    lower_session: &str,
) -> (r: Option<String>)
    ensures
        r.deep_view() == display_reason(*env, platform@, override_word@, lower_session@),
{
    if text::str_eq(override_word, "1") || text::str_eq(override_word, "true") || text::str_eq(
        override_word,
        "yes",
    ) || text::str_eq(override_word, "on") {
        return Some("override (HERMES_DESKTOP_DISABLE_GPU)".to_owned());
    }
    if text::str_eq(override_word, "0") || text::str_eq(override_word, "false") || text::str_eq(
        override_word,
        "no",
    ) || text::str_eq(override_word, "off") {
        return None;
    }
    if set(&env.ssh_connection) || set(&env.ssh_client) || set(&env.ssh_tty) {
        return Some("ssh-session".to_owned());
    }
    if text::str_eq(platform, "linux") {
        let display = or_empty(&env.display);
        let chars = text::chars_of(display.as_str());
        let leading_colon = chars.len() > 0 && chars[0] == ':';
        if text::scan::has_char(display.as_str(), ':') && !leading_colon {
            proof {
                assert(display@.len() > 0);
            }
            return Some(text::cat3("x11-forwarding (DISPLAY=", display.as_str(), ")"));
        }
        proof {
            assert(!is_forwarded(display@));
        }
    }
    if text::str_eq(platform, "win32") {
        if text::scan::starts_with(lower_session, "rdp-") {
            let session = or_empty(&env.session_name);
            return Some(text::cat3("rdp (SESSIONNAME=", session.as_str(), ")"));
        }
    }
    None
}

/// Why a display counts as remote in a given environment.
pub fn reason_in(env: &DisplayEnv, platform: &str) -> (r: Option<String>)
    ensures
        r.deep_view() == display_reason(
            *env,
            platform@,
            override_word_of(*env),
            lower_session_of(*env),
        ),
{
    let asked = or_empty(&env.disable_gpu);
    let trimmed = text::trim(asked.as_str());
    let override_word = text::unicode::to_lowercase(trimmed.as_str());
    let session = or_empty(&env.session_name);
    let lower_session = text::unicode::to_lowercase(session.as_str());
    reason_given(env, platform, override_word.as_str(), lower_session.as_str())
}

/// Whether `lookup`, asked for the variable `key`, answered `value`.
pub open spec fn looks_up<F: Fn(&str) -> Option<String>>(
    lookup: F,
    key: Seq<char>,
    value: Option<String>,
) -> bool {
    exists|k: &str| k@ == key && #[trigger] call_ensures(lookup, (k,), value)
}

/// Whether `env` is the environment that `lookup` answers from.
pub open spec fn is_env_of<F: Fn(&str) -> Option<String>>(env: DisplayEnv, lookup: F) -> bool {
    &&& looks_up(lookup, "HERMES_DESKTOP_DISABLE_GPU"@, env.disable_gpu)
    &&& looks_up(lookup, "SSH_CONNECTION"@, env.ssh_connection)
    &&& looks_up(lookup, "SSH_CLIENT"@, env.ssh_client)
    &&& looks_up(lookup, "SSH_TTY"@, env.ssh_tty)
    &&& looks_up(lookup, "DISPLAY"@, env.display)
    &&& looks_up(lookup, "SESSIONNAME"@, env.session_name)
}

fn ask<F: Fn(&str) -> Option<String>>(lookup: &F, key: &str) -> (r: Option<String>)
    requires
        forall|k: &str| call_requires(*lookup, (k,)),
    ensures
        looks_up(*lookup, key@, r),
{
    let r = lookup(key);
    assert(call_ensures(*lookup, (key,), r));
    r
}

/// The reason why this display counts as remote, or `None` to keep the GPU on.
/// The user is shown it as it is.
pub fn remote_display_reason<F: Fn(&str) -> Option<String>>(lookup: F, platform: &str) -> (r: Option<
    String,
>)
    requires
        forall|k: &str| call_requires(lookup, (k,)),
    ensures
        exists|env: DisplayEnv| #[trigger]
            is_env_of(env, lookup) && r.deep_view() == display_reason(
                env,
                platform@,
                override_word_of(env),
                lower_session_of(env),
            ),
{
    let env = DisplayEnv {
        disable_gpu: ask(&lookup, "HERMES_DESKTOP_DISABLE_GPU"),
        ssh_connection: ask(&lookup, "SSH_CONNECTION"),
        ssh_client: ask(&lookup, "SSH_CLIENT"),
        ssh_tty: ask(&lookup, "SSH_TTY"),
        display: ask(&lookup, "DISPLAY"),
        session_name: ask(&lookup, "SESSIONNAME"),
    };
    let r = reason_in(&env, platform);
    assert(is_env_of(env, lookup));
    r
}

/// The variable, and the switch in it, by which a platform falls back to
/// software rendering.
pub open spec fn fallback_switch(os: Seq<char>) -> Option<(Seq<char>, Seq<char>)> {
    if os == "windows"@ {
        Some(("WEBVIEW2_ADDITIONAL_BROWSER_ARGUMENTS"@, "--disable-gpu"@))
    } else if os == "linux"@ {
        Some(("WEBKIT_DISABLE_COMPOSITING_MODE"@, "1"@))
    } else {
        None
    }
}

/// The variable, and the switch in it, by which a platform falls back to
/// software rendering. macOS has none: its webview owns no GPU process.
pub fn gpu_fallback_switch(os: &str) -> (r: Option<(&'static str, &'static str)>)
    ensures
        r.deep_view() == fallback_switch(os@),
{
    if text::str_eq(os, "windows") {
        Some(("WEBVIEW2_ADDITIONAL_BROWSER_ARGUMENTS", "--disable-gpu"))
    } else if text::str_eq(os, "linux") {
        Some(("WEBKIT_DISABLE_COMPOSITING_MODE", "1"))
    } else {
        None
    }
}

/// Whether `word` stands in `s` at `i` with nothing but white space, or an end
/// of the text, on both sides.
pub open spec fn word_at(s: Seq<char>, word: Seq<char>, i: int) -> bool {
    &&& text::scan::occurs_at(s, word, i)
    &&& i == 0 || text::is_white_space(s[i - 1])
    &&& i + word.len() == s.len() || text::is_white_space(s[i + word.len()])
}

/// Whether `word` is one of the words of `s`.
pub open spec fn has_word(s: Seq<char>, word: Seq<char>) -> bool {
    exists|i: int| word_at(s, word, i)
}

/// Whether `word` is one of the words of `s`. A word is not empty and holds no
/// white space.
pub fn contains_word(s: &str, word: &str) -> (r: bool)
    requires
        word@.len() > 0,
    ensures
        r == has_word(s@, word@),
{
    let sc = text::chars_of(s);
    let wc = text::chars_of(word);
    let n: usize = sc.len();
    let mut i: usize = 0;
    while i < n
        invariant
            i <= n == sc@.len(),
            sc@ == s@,
            wc@ == word@,
            wc@.len() > 0,
            forall|j: int| 0 <= j < i ==> !word_at(s@, word@, j),
        decreases n - i,
    {
        if text::scan::stands_at(&sc, &wc, i) {
            assert(i + wc@.len() <= n);
            let end: usize = i + wc.len();
            if (i == 0 || text::white_space(sc[i - 1])) && (end == n || text::white_space(sc[end])) {
                assert(word_at(s@, word@, i as int));
                return true;
            }
        }
        i = i + 1;
    }
    proof {
        assert forall|j: int| !word_at(s@, word@, j) by {}
    }
    false
}

/// A switch added to those that are already there.
pub open spec fn merged(existing: Seq<char>, switch: Seq<char>) -> Seq<char> {
    if has_word(existing, switch) {
        existing
    } else if text::is_blank(existing) {
        switch
    } else {
        existing + " "@ + switch
    }
}

/// What is done about a remote display before the webview exists.
#[derive(Debug, Clone, PartialEq, Eq)]
pub struct FallbackPlan {
    /// The variable to set and its new value, where it has to change.
    pub set: Option<(String, String)>,
    /// What goes to the log: a warning where the platform has no switch.
    pub log: Option<String>,
}

/// What is done about a remote display before the webview exists: the platform's
/// switch is added to its variable, never put in the place of other switches.
/// `existing` is that variable's value, where it has one.
pub fn apply_remote_display_fallback(
    reason: Option<&str>,
    os: &str,
    existing: Option<&str>,
) -> (r: FallbackPlan)
    ensures
        match (reason, fallback_switch(os@)) {
            (None, _) => r.set is None && r.log is None,
            (Some(reason), None) => r.set is None && r.log.deep_view() == Some(
                "WARN  "@ + ("remote display detected ("@ + reason@
                    + ") but this platform has no software-rendering switch"@),
            ),
            (Some(reason), Some((key, switch))) => {
                let before = value_or_empty(existing.deep_view());
                &&& r.log.deep_view() == Some(
                    "INFO  "@ + ("software rendering enabled ("@ + reason@ + ")"@),
                )
                &&& r.set.deep_view() == (if has_word(before, switch) {
                    None
                } else {
                    Some((key, merged(before, switch)))
                })
            },
        },
{
    match reason {
        None => FallbackPlan { set: None, log: None },
        Some(reason) => match gpu_fallback_switch(os) {
            None => {
                let line = text::cat3(
                    "remote display detected (",
                    reason,
                    ") but this platform has no software-rendering switch",
                );
                FallbackPlan { set: None, log: Some(logging::warn(line.as_str())) }
            },
            Some((key, switch)) => {
                let line = text::cat3("software rendering enabled (", reason, ")");
                let log = Some(logging::info(line.as_str()));
                let before = match existing {
                    Some(text) => text,
                    None => "",
                };
                proof {
                    reveal_strlit("");
                    reveal_strlit("--disable-gpu");
                    reveal_strlit("1");
                    if existing is None {
                        assert(before@ =~= Seq::<char>::empty());
                    }
                }
                if contains_word(before, switch) {
                    return FallbackPlan { set: None, log };
                }
                let trimmed = text::trim(before);
                let value = if text::is_empty(trimmed.as_str()) {
                    switch.to_owned()
                } else {
                    text::cat3(before, " ", switch)
                };
                FallbackPlan { set: Some((key.to_owned(), value)), log }
            },
        },
    }
}

/// Why GPU acceleration is off, for the renderer's banner. A platform without a
/// switch reports nothing: nothing changed there.
pub fn hermes_get_remote_display_reason(reason: Option<&str>, os: &str) -> (r: Option<String>)
    ensures
        r.deep_view() == (if fallback_switch(os@) is None {
            None
        } else {
            reason.deep_view()
        }),
{
    match gpu_fallback_switch(os) {
        None => None,
        Some(_) => match reason {
            Some(reason) => Some(reason.to_owned()),
            None => None,
        },
    }
}

/// The override outranks every detection, in both directions.
pub proof fn the_override_outranks_every_detection(
    env: DisplayEnv,
    platform: Seq<char>,
    override_word: Seq<char>,
    lower_session: Seq<char>,
)
    ensures
        forces_on(override_word) ==> display_reason(
            env,
            platform,
            override_word,
            lower_session,
        ) is Some,
        forces_off(override_word) ==> display_reason(
            env,
            platform,
            override_word,
            lower_session,
        ) is None,
        !(forces_on(override_word) && forces_off(override_word)),
{
    reveal_strlit("1");
    reveal_strlit("true");
    reveal_strlit("yes");
    reveal_strlit("on");
    reveal_strlit("0");
    reveal_strlit("false");
    reveal_strlit("no");
    reveal_strlit("off");
    if forces_on(override_word) {
        assert(override_word[0] == '1' || override_word[0] == 't' || override_word[0] == 'y'
            || override_word.len() == 2 && override_word[0] == 'o');
    }
    if forces_off(override_word) {
        assert(override_word[0] == '0' || override_word[0] == 'f' || override_word[0] == 'n'
            || override_word.len() == 3 && override_word[0] == 'o');
    }
}

/// A switch that was added is there, and adding it again changes nothing.
pub proof fn a_switch_is_added_once(existing: Seq<char>, switch: Seq<char>)
    ensures
        has_word(merged(existing, switch), switch),
        merged(merged(existing, switch), switch) == merged(existing, switch),
{
    reveal_strlit(" ");
    if !has_word(existing, switch) {
        if text::is_blank(existing) {
            assert(switch.subrange(0, switch.len() as int) =~= switch);
            assert(word_at(switch, switch, 0));
        } else {
            let after = existing + " "@ + switch;
            let at = existing.len() as int + 1;
            assert(after.subrange(at, at + switch.len()) =~= switch);
            assert(after[at - 1] == ' ');
            assert(word_at(after, switch, at));
        }
    }
}

// ---------------------------------------------------------------------------
// Laws
// ---------------------------------------------------------------------------
/// The renderer knows Windows as `win32` and macOS as `darwin`, and any other
/// platform by its own name.
pub proof fn the_renderer_knows_the_platforms(os: Seq<char>)
    ensures
        renderer_platform("windows"@) == "win32"@,
        renderer_platform("macos"@) == "darwin"@,
        os != "windows"@ && os != "macos"@ ==> renderer_platform(os) == os,
{
    reveal_strlit("windows");
    reveal_strlit("macos");
    assert("windows"@.len() != "macos"@.len());
}

/// An error in the renderer is always logged by its message, and by its stack and
/// its component stack where it has them, in this order.
pub proof fn an_error_is_logged_with_its_stacks(report: RendererErrorReport)
    ensures
        ({
            let lines = report_lines(report);
            let stack = report.stack is Some;
            let component = report.component_stack is Some;
            let n = (if stack {
                1int
            } else {
                0int
            });
            &&& lines.len() == 1 + n + (if component {
                1int
            } else {
                0int
            })
            &&& report.message is Some ==> lines[0] == "ERROR "@ + ("renderer: "@
                + report.message->0@)
            &&& report.message is None ==> lines[0] == "ERROR "@ + ("renderer: "@
                + "unknown renderer error"@)
            &&& stack ==> lines[1] == "ERROR "@ + ("renderer stack: "@ + report.stack->0@)
            &&& component ==> lines[1 + n] == "ERROR "@ + ("renderer component stack: "@
                + report.component_stack->0@)
        }),
{
}

/// Settings of a device are in `Hermes` below the platform's data directory.
pub proof fn device_settings_are_below_the_data_directory(dir: Seq<char>, host: Host)
    requires
        paths::is_folder(dir, host.is_windows),
    ensures
        device_dir(Some(dir), host) == dir + (if host.is_windows {
            "\\"@
        } else {
            "/"@
        }) + "Hermes"@,
{
    reveal_strlit("Hermes");
    paths::a_name_goes_below_its_folder(dir, "Hermes"@, host.is_windows);
}

/// Off Windows the data directory is `.local/share` of the home where the platform
/// reports none.
pub proof fn the_data_directory_defaults_to_the_home(host: Host)
    requires
        !host.is_windows,
        paths::is_folder(host.home@, false),
    ensures
        device_dir(None, host) == host.home@ + "/"@ + ".local/share"@ + "/"@ + "Hermes"@,
{
    reveal_strlit(".local/share");
    reveal_strlit("Hermes");
    reveal_strlit("/");
    let home = host.home@;
    paths::posix_paths_join_at_one_slash(home, ".local/share"@);
    let base = home + "/"@ + ".local/share"@;
    assert(base.last() == ".local/share"@.last());
    paths::posix_paths_join_at_one_slash(base, "Hermes"@);
}

/// A stored directory counts without the white space around it and only where it is
/// there: one that is surely there is what is read, one that is surely gone is not.
pub proof fn a_stored_directory_counts_where_it_is_there<F: Fn(&str) -> bool>(
    stored: Seq<char>,
    is_dir: F,
    dir: Option<Seq<char>>,
)
    requires
        is_stored_dir(Some(stored), is_dir, dir),
    ensures
        text::is_blank(stored) ==> dir is None,
        !text::is_blank(stored) && !probe::says(is_dir, text::trimmed(stored), false) ==> dir
            == Some(text::trimmed(stored)),
        !text::is_blank(stored) && !probe::says(is_dir, text::trimmed(stored), true) ==> dir is None,
        dir matches Some(named) ==> named == text::trimmed(stored),
{
}

/// A text of a dialog is used as it is where a character of it prints, and else not
/// at all; and the kinds of file are those that are asked for.
pub proof fn a_dialog_uses_what_is_asked_for(
    value: Option<Seq<char>>,
    options: PathPickerOptions,
)
    ensures
        value is Some && !text::is_blank(value->0) ==> unless_blank(value) == value,
        value is None || text::is_blank(value->0) ==> unless_blank(value) is None,
        options.filters matches Some(filters) ==> asked_filters(options) == filters.deep_view(),
        options.filters is None ==> asked_filters(options).len() == 0,
{
}

/// The words that force software rendering, and those that forbid it.
pub proof fn four_words_force_and_four_forbid(word: Seq<char>)
    ensures
        forces_on(word) <==> seq!["1"@, "true"@, "yes"@, "on"@].contains(word),
        forces_off(word) <==> seq!["0"@, "false"@, "no"@, "off"@].contains(word),
{
    let on = seq!["1"@, "true"@, "yes"@, "on"@];
    let off = seq!["0"@, "false"@, "no"@, "off"@];
    if forces_on(word) {
        assert(on[0] == word || on[1] == word || on[2] == word || on[3] == word);
    }
    if forces_off(word) {
        assert(off[0] == word || off[1] == word || off[2] == word || off[3] == word);
    }
}

/// A display is forwarded exactly where a host stands in front of its first colon:
/// a display of the machine itself begins with the colon.
pub proof fn a_forwarded_display_names_its_host(host: Seq<char>, rest: Seq<char>)
    requires
        !host.contains(':'),
    ensures
        host.len() > 0 ==> is_forwarded(host + ":"@ + rest),
        !is_forwarded(":"@ + rest),
        !is_forwarded(host),
{
    reveal_strlit(":");
    let display = host + ":"@ + rest;
    assert forall|j: int| 0 <= j < host.len() implies display[j] != ':' by {
        assert(display[j] == host[j]);
        assert(host.contains(host[j]));
    }
    assert(display[host.len() as int] == ':');
    text::scan::lemma_first_index(display, ':', host.len() as int);
    assert((":"@ + rest)[0] == ':');
}

/// Why a display counts as remote where no override decides: any of the three
/// variables of a shell over SSH, else on Linux a forwarded display, else on Windows
/// a session of the remote desktop, and else it does not.
pub proof fn a_remote_display_is_told_by_its_environment(
    env: DisplayEnv,
    platform: Seq<char>,
    word: Seq<char>,
    session: Seq<char>,
)
    requires
        !forces_on(word),
        !forces_off(word),
    ensures
        ({
            let reason = display_reason(env, platform, word, session);
            let ssh = (env.ssh_connection is Some && env.ssh_connection->0@.len() > 0) || (
            env.ssh_client is Some && env.ssh_client->0@.len() > 0) || (env.ssh_tty is Some
                && env.ssh_tty->0@.len() > 0);
            let forwarded = platform == "linux"@ && env.display is Some && is_forwarded(
                env.display->0@,
            );
            let remote = platform == "win32"@ && exists|rest: Seq<char>|
                session == #[trigger] ("rdp-"@ + rest);
            let name = if env.session_name is Some {
                env.session_name->0@
            } else {
                Seq::empty()
            };
            &&& ssh ==> reason == Some("ssh-session"@)
            &&& !ssh && forwarded ==> reason == Some(
                "x11-forwarding (DISPLAY="@ + env.display->0@ + ")"@,
            )
            &&& !ssh && remote ==> reason == Some("rdp (SESSIONNAME="@ + name + ")"@)
            &&& !ssh && !forwarded && !remote ==> reason is None
        }),
        forces_on("1"@) && display_reason(env, platform, "1"@, session) == Some(
            "override (HERMES_DESKTOP_DISABLE_GPU)"@,
        ),
{
    reveal_strlit("linux");
    reveal_strlit("win32");
    assert("linux"@[0] != "win32"@[0]);
    let none = Seq::<char>::empty();
    assert(!is_forwarded(none));
    let p = "rdp-"@;
    if text::scan::occurs_at(session, p, 0) {
        let rest = session.skip(p.len() as int);
        assert(session =~= session.subrange(0, p.len() as int) + rest);
        assert(session == p + rest);
    }
    if exists|rest: Seq<char>| session == #[trigger] (p + rest) {
        let rest = choose|rest: Seq<char>| session == #[trigger] (p + rest);
        assert(session.subrange(0, p.len() as int) =~= p);
    }
}

/// Each fact of the environment is looked up under its own name.
pub proof fn each_variable_is_looked_up_by_its_name<F: Fn(&str) -> Option<String>>(
    env: DisplayEnv,
    lookup: F,
)
    requires
        is_env_of(env, lookup),
    ensures
        looks_up(lookup, "HERMES_DESKTOP_DISABLE_GPU"@, env.disable_gpu),
        looks_up(lookup, "SSH_CONNECTION"@, env.ssh_connection),
        looks_up(lookup, "SSH_CLIENT"@, env.ssh_client),
        looks_up(lookup, "SSH_TTY"@, env.ssh_tty),
        looks_up(lookup, "DISPLAY"@, env.display),
        looks_up(lookup, "SESSIONNAME"@, env.session_name),
        override_word_of(env) == text::unicode::lowercase(
            text::trimmed(
                match env.disable_gpu {
                    Some(asked) => asked@,
                    None => Seq::empty(),
                },
            ),
        ),
        lower_session_of(env) == text::unicode::lowercase(
            match env.session_name {
                Some(name) => name@,
                None => Seq::empty(),
            },
        ),
{
}

/// The switch of software rendering is the platform's own, and macOS has none.
pub proof fn each_platform_has_its_switch(os: Seq<char>)
    ensures
        fallback_switch("windows"@) == Some(
            ("WEBVIEW2_ADDITIONAL_BROWSER_ARGUMENTS"@, "--disable-gpu"@),
        ),
        fallback_switch("linux"@) == Some(("WEBKIT_DISABLE_COMPOSITING_MODE"@, "1"@)),
        os != "windows"@ && os != "linux"@ ==> fallback_switch(os) is None,
{
    reveal_strlit("windows");
    reveal_strlit("linux");
    assert("windows"@.len() != "linux"@.len());
}

/// A word is one of a text exactly where white space, or an end of the text, is on
/// both sides of it.
pub proof fn a_word_stands_between_white_space(s: Seq<char>, word: Seq<char>)
    ensures
        has_word(s, word) <==> exists|before: Seq<char>, after: Seq<char>|
            {
                &&& s == #[trigger] (before + word + after)
                &&& before.len() == 0 || text::is_white_space(before.last())
                &&& after.len() == 0 || text::is_white_space(after[0])
            },
{
    if has_word(s, word) {
        let i = choose|i: int| word_at(s, word, i);
        let before = s.take(i);
        let after = s.skip(i + word.len());
        assert forall|k: int| 0 <= k < s.len() implies s[k] == (before + word + after)[k] by {
            if i <= k < i + word.len() {
                assert(s.subrange(i, i + word.len())[k - i] == s[k]);
            }
        }
        assert(s =~= before + word + after);
    }
    if exists|before: Seq<char>, after: Seq<char>|
        {
            &&& s == #[trigger] (before + word + after)
            &&& before.len() == 0 || text::is_white_space(before.last())
            &&& after.len() == 0 || text::is_white_space(after[0])
        } {
        let (before, after) = choose|before: Seq<char>, after: Seq<char>|
            {
                &&& s == #[trigger] (before + word + after)
                &&& before.len() == 0 || text::is_white_space(before.last())
                &&& after.len() == 0 || text::is_white_space(after[0])
            };
        let i = before.len() as int;
        assert(s.subrange(i, i + word.len()) =~= word);
        if i > 0 {
            assert(s[i - 1] == before.last());
        }
        if after.len() > 0 {
            assert(s[i + word.len()] == after[0]);
        }
        assert(word_at(s, word, i));
    }
}

/// A switch is added and never put in the place of others: what is there stays in
/// front of it, one that is there already is not added again, and white space alone
/// counts as nothing.
pub proof fn a_switch_is_added_to_the_others(existing: Seq<char>, switch: Seq<char>)
    ensures
        has_word(existing, switch) ==> merged(existing, switch) == existing,
        !has_word(existing, switch) && !text::is_blank(existing) ==> merged(existing, switch)
            == existing + " "@ + switch,
        !has_word(existing, switch) && text::is_blank(existing) ==> merged(existing, switch)
            == switch,
{
}

// ---------------------------------------------------------------------------
// Laws of the operations themselves
// ---------------------------------------------------------------------------
/// A URL is opened without the white space around it, and one that is blank is
/// refused.
pub proof fn a_url_is_opened_unless_blank(url: &str, r: Result<String, String>)
    requires
        call_ensures(hermes_open_external, (url,), r),
    ensures
        r is Err <==> forall|i: int| 0 <= i < url@.len() ==> text::is_white_space(#[trigger] url@[i]),
        r matches Ok(opened) ==> opened@ == text::trimmed(url@),
        r matches Err(error) ==> error@ == "refusing to open an empty URL"@,
{
    text::a_blank_text_is_all_white(url@);
}

/// A notification shows its title and its body, and Hermes's name and nothing where
/// it has none.
pub proof fn a_notification_shows_its_text(payload: NotifyPayload, r: (String, String))
    requires
        call_ensures(hermes_notify, (&payload,), r),
    ensures
        payload.title matches Some(title) ==> r.0@ == title@,
        payload.title is None ==> r.0@ == "Hermes"@,
        payload.body matches Some(body) ==> r.1@ == body@,
        payload.body is None ==> r.1@.len() == 0,
{
}

/// The renderer is told the versions as they are, the platform by its own name for
/// it, and Hermes's directory.
pub proof fn the_renderer_is_told_the_versions(
    app_version: &str,
    tauri_version: &str,
    os: &str,
    host: Host,
    r: DesktopVersionInfo,
)
    requires
        call_ensures(hermes_version, (app_version, tauri_version, os, &host), r),
    ensures
        r.app_version@ == app_version@,
        r.tauri_version@ == tauri_version@,
        r.platform@ == renderer_platform(os@),
        r.hermes_root@ == host.hermes_home_path(),
        r.shell@ == "tauri"@,
        r.electron_version@.len() == 0 && r.node_version@.len() == 0,
{
}

/// The log that is shown is its newest lines, as far as a quarter of a mebibyte
/// reaches back, and nothing where there is none.
pub proof fn the_newest_of_the_log_is_shown(contents: &str, r: Vec<String>, none: Vec<String>)
    requires
        call_ensures(hermes_logs_recent, (Some(contents),), r),
        call_ensures(hermes_logs_recent, (None::<&str>,), none),
    ensures
        none@.len() == 0,
        r.deep_view() == text::scan::lines(text::bytes::last_bytes(contents@, 262144)),
{
    assert(none.deep_view().len() == none@.len());
}

/// A project's directory is the stored one where it is there, and the home where
/// it is not; the label is always the home.
pub proof fn the_stored_project_directory_is_used<F: Fn(&str) -> bool>(
    stored: &str,
    home: &str,
    is_dir: F,
    r: DefaultProjectDirState,
)
    requires
        call_ensures(
            hermes_setting_default_project_dir_get::<F>,
            (Some(stored), home, &is_dir),
            r,
        ),
    ensures
        r.default_label@ == home@,
        r.dir is None ==> r.resolved_cwd@ == home@,
        r.dir matches Some(dir) ==> r.resolved_cwd@ == dir@ && dir@ == text::trimmed(stored@),
        text::is_blank(stored@) ==> r.dir is None,
        !text::is_blank(stored@) && !probe::says(is_dir, text::trimmed(stored@), false)
            ==> r.dir is Some,
        !text::is_blank(stored@) && !probe::says(is_dir, text::trimmed(stored@), true)
            ==> r.dir is None,
{
    a_stored_directory_counts_where_it_is_there(stored@, is_dir, r.dir.deep_view());
}

/// What is stored as the project's directory is read back: the directory that was
/// set, without the white space around it, and none where it was blank.
pub proof fn a_stored_project_directory_is_read_back<F: Fn(&str) -> bool>(
    dir: &str,
    set: DefaultProjectDirUpdate,
    chosen: &str,
    written: String,
    is_dir: F,
    read: Option<String>,
)
    requires
        call_ensures(hermes_setting_default_project_dir_set, (Some(dir),), set),
        set.dir is Some ==> chosen@ == set.dir->0@,
        call_ensures(write_default_project_dir, (Some(chosen),), written),
        call_ensures(read_default_project_dir::<F>, (Some(chosen), &is_dir), read),
        !probe::says(is_dir, text::trimmed(dir@), false),
    ensures
        set.dir is None <==> text::is_blank(dir@),
        set.dir is Some ==> written@ == text::trimmed(dir@),
        set.dir is Some ==> read is Some && read->0@ == text::trimmed(dir@),
{
    if set.dir is Some {
        text::trimming_takes_white_space_off_both_ends(dir@);
        text::trimming_forgets_the_ends(Seq::empty(), text::trimmed(dir@), Seq::empty());
    }
}

/// The first of the picked directories is taken, and none where none was picked.
pub proof fn the_first_picked_directory_is_taken(picked: Vec<String>, r: DefaultProjectDirPick)
    requires
        call_ensures(hermes_setting_default_project_dir_pick, (&picked,), r),
    ensures
        r.canceled <==> picked@.len() == 0,
        r.canceled <==> r.dir is None,
        picked@.len() > 0 ==> r.dir->0@ == picked@[0]@,
{
}

/// A dialog asks for directories or files as it is told, and for several unless it
/// is told not to.
pub proof fn a_dialog_asks_for_several_unless_told_not_to(
    options: PathPickerOptions,
    r: DialogPlan,
    save: DialogPlan,
)
    requires
        call_ensures(hermes_select_paths, (&options,), r),
        call_ensures(hermes_select_save_path, (&options,), save),
    ensures
        r.kind == PickKind::Folder <==> options.directories && options.multiple == Some(false),
        r.kind == PickKind::Folders <==> options.directories && options.multiple != Some(false),
        r.kind == PickKind::File <==> !options.directories && options.multiple == Some(false),
        r.kind == PickKind::Files <==> !options.directories && options.multiple != Some(false),
        save.kind == PickKind::Save,
        r.title.deep_view() == save.title.deep_view(),
        r.directory.deep_view() == save.directory.deep_view(),
        r.filters.deep_view() == save.filters.deep_view(),
        r.title.deep_view() == unless_blank(options.title.deep_view()),
        r.directory.deep_view() == unless_blank(options.default_path.deep_view()),
        r.filters.deep_view() == asked_filters(options),
{
}

/// The window is made dark or light where it is told to be, and else follows the
/// system.
pub proof fn a_theme_is_dark_or_light(mode: &str, r: Option<NativeTheme>, unset: Option<NativeTheme>)
    requires
        call_ensures(hermes_native_theme_set, (Some(mode),), r),
        call_ensures(hermes_native_theme_set, (None::<&str>,), unset),
    ensures
        r == Some(NativeTheme::Dark) <==> text::trimmed(mode@) == "dark"@,
        r == Some(NativeTheme::Light) <==> text::trimmed(mode@) == "light"@,
        unset is None,
{
    reveal_strlit("dark");
    reveal_strlit("light");
    assert("dark"@.len() != "light"@.len());
}

/// Keeping the machine awake keeps both the system and the display awake, and lets
/// both go again; and it runs on its battery exactly where the line is down.
pub proof fn awake_is_system_and_display(
    on: KeepAwakeRequest,
    off: KeepAwakeRequest,
    status: Option<u8>,
    battery: bool,
)
    requires
        call_ensures(hermes_keep_awake_set, (true,), on),
        call_ensures(hermes_keep_awake_set, (false,), off),
        call_ensures(hermes_power_battery_get, (status,), battery),
    ensures
        on.continuous && on.system_required && on.display_required,
        off.continuous && !off.system_required && !off.display_required,
        battery <==> status == Some(0u8),
{
}

/// Software rendering is switched on exactly for a remote display on a platform
/// that has a switch for it, and only where it is not on already; what it is set to
/// has the switch as one of its words.
pub proof fn a_remote_display_is_rendered_in_software(
    reason: &str,
    os: &str,
    existing: Option<&str>,
    r: FallbackPlan,
    local: FallbackPlan,
)
    requires
        call_ensures(apply_remote_display_fallback, (Some(reason), os, existing), r),
        call_ensures(apply_remote_display_fallback, (None::<&str>, os, existing), local),
    ensures
        local.set is None && local.log is None,
        r.log is Some,
        os@ != "windows"@ && os@ != "linux"@ ==> r.set is None,
        os@ == "linux"@ && existing is None ==> r.set is Some && (r.set->0).0@
            == "WEBKIT_DISABLE_COMPOSITING_MODE"@ && (r.set->0).1@ == "1"@,
        os@ == "windows"@ && existing is None ==> r.set is Some && (r.set->0).0@
            == "WEBVIEW2_ADDITIONAL_BROWSER_ARGUMENTS"@ && (r.set->0).1@ == "--disable-gpu"@,
        os@ == "windows"@ && existing is Some && has_word(existing->0@, "--disable-gpu"@)
            ==> r.set is None,
        os@ == "windows"@ && existing is Some && !has_word(existing->0@, "--disable-gpu"@)
            && !text::is_blank(existing->0@) ==> r.set is Some && (r.set->0).1@ == existing->0@ + " "@
            + "--disable-gpu"@,
{
    each_platform_has_its_switch(os@);
    reveal_strlit("--disable-gpu");
    reveal_strlit("1");
    let none = Seq::<char>::empty();
    assert(!has_word(none, "--disable-gpu"@));
    assert(!has_word(none, "1"@));
    text::a_blank_text_is_all_white(none);
}

/// The renderer is told of a remote display only where there is a switch for it.
pub proof fn a_reason_is_shown_where_it_counts(reason: Option<&str>, os: &str, r: Option<String>)
    requires
        call_ensures(hermes_get_remote_display_reason, (reason, os), r),
    ensures
        os@ == "windows"@ || os@ == "linux"@ ==> r.deep_view() == reason.deep_view(),
        os@ != "windows"@ && os@ != "linux"@ ==> r is None,
{
    each_platform_has_its_switch(os@);
}

} // verus!
