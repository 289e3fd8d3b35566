//! The embedded terminal.
//!
//! Which shell runs, where, and how large its terminal is, is decided here;
//! opening the terminal and carrying its bytes is the caller's work.
use crate::backend::command;
use crate::duplicate::Duplicate;
use crate::paths;
use crate::probe;
use crate::text;
use crate::token;
use vstd::prelude::*;

verus! {

/// What a terminal is asked to start with.
#[derive(Debug, Clone, PartialEq, Eq)]
pub struct TerminalStartOptions {
    pub cwd: Option<String>,
    pub cols: Option<u32>,
    pub rows: Option<u32>,
}

/// What became of the request.
#[derive(Debug, Clone, PartialEq, Eq)]
pub struct TerminalStartResult {
    pub id: String,
    pub cwd: String,
    pub shell: String,
}

/// How a shell ended.
#[derive(Debug, Clone, PartialEq, Eq)]
pub struct TerminalExitPayload {
    pub code: i32,
    pub signal: Option<String>,
}

/// The width of a terminal that is asked for without one.
pub const DEFAULT_COLS: u32 = 80;

/// The height of a terminal that is asked for without one.
pub const DEFAULT_ROWS: u32 = 24;

/// A dimension of a terminal: at least 2, since a terminal without width wedges
/// the shell, and at most what a terminal can have.
pub fn clamp_dimension(value: Option<u32>, fallback: u32) -> (r: u16)
    ensures
        r == clamped(value, fallback),
        r >= 2,
{
    let asked: u32 = match value {
        Some(value) => value,
        None => fallback,
    };
    if asked < 2 {
        2
    } else if asked > 65535 {
        65535
    } else {
        asked as u16
    }
}

/// Whether a path names a program: an absolute path of a file that, where the
/// platform has permission bits, someone may execute.
pub fn is_executable_file(is_absolute: bool, is_file: bool, mode: Option<u32>) -> (r: bool)
    ensures
        r == (is_absolute && is_file && (mode matches Some(bits) ==> bits & 0o111u32 != 0)),
{
    is_absolute && is_file && match mode {
        Some(bits) => bits & 0o111u32 != 0,
        None => true,
    }
}

/// The first executable program `name` in the directories `dirs`.
pub fn find_on_path<F: Fn(&str) -> bool>(
    name: &str,
    dirs: &Vec<String>,
    is_windows: bool,
    is_executable: &F,
) -> (r: Option<String>)
    requires
        forall|p: &str| call_requires(*is_executable, (p,)),
    ensures
        probe::chosen(
            *is_executable,
            command::path_programs(dirs.deep_view(), name@, is_windows),
            r.deep_view(),
        ),
{
    let candidates = command::path_candidates(dirs, name, is_windows);
    probe::first_accepted(&candidates, is_executable)
}

// ---------------------------------------------------------------------------
// The shell
// ---------------------------------------------------------------------------
/// A shell, how it is called and what it is called.
#[derive(Debug, Clone, PartialEq, Eq)]
pub struct ShellSpec {
    pub command: String,
    pub args: Vec<String>,
    pub name: String,
}

/// The arguments that make a shell interactive.
pub open spec fn shell_args(name: Seq<char>) -> Seq<Seq<char>> {
    if text::scan::occurs_at(name, "pwsh"@, 0) || text::scan::occurs_at(name, "powershell"@, 0) {
        seq!["-NoLogo"@]
    } else if text::scan::occurs_at(name, "cmd"@, 0) {
        Seq::empty()
    } else if text::scan::occurs(name, "zsh"@) || text::scan::occurs(name, "bash"@) {
        seq!["-il"@]
    } else {
        seq!["-i"@]
    }
}

/// What a shell is called: its file name in lower case.
pub open spec fn shell_name(file_name: Option<Seq<char>>) -> Seq<char> {
    match file_name {
        Some(name) => text::unicode::lowercase(name),
        None => "shell"@,
    }
}

/// The shell at `path`, whose last component is `file_name`, where it has one.
pub fn shell_spec_for(path: &str, file_name: Option<&str>) -> (r: ShellSpec)
    ensures
        r.command@ == path@,
        r.name@ == shell_name(file_name.deep_view()),
        r.args.deep_view() == shell_args(r.name@),
{
    let name = match file_name {
        Some(name) => text::unicode::to_lowercase(name),
        None => "shell".to_owned(),
    };
    named_shell(path, name)
}

/// The shell at `path` that is called `name`.
pub fn named_shell(path: &str, name: String) -> (r: ShellSpec)
    ensures
        r.command@ == path@,
        r.name@ == name@,
        r.args.deep_view() == shell_args(name@),
{
    let mut args: Vec<String> = Vec::new();
    if text::scan::starts_with(name.as_str(), "pwsh") || text::scan::starts_with(
        name.as_str(),
        "powershell",
    ) {
        args.push("-NoLogo".to_owned());
    } else if text::scan::starts_with(name.as_str(), "cmd") {
    } else if text::scan::contains(name.as_str(), "zsh") || text::scan::contains(
        name.as_str(),
        "bash",
    ) {
        args.push("-il".to_owned());
    } else {
        args.push("-i".to_owned());
    }
    proof {
        assert(args.deep_view() =~= shell_args(name@));
    }
    ShellSpec { command: path.to_owned(), args, name }
}

/// What the choice of a shell depends on.
#[derive(Debug, Clone, PartialEq, Eq)]
pub struct ShellEnv {
    pub is_windows: bool,
    /// `HERMES_DESKTOP_SHELL`.
    pub override_shell: Option<String>,
    /// `SHELL`.
    pub shell: Option<String>,
    /// The directories of `PATH`.
    pub path_dirs: Vec<String>,
    /// `SystemRoot`.
    pub system_root: Option<String>,
    /// `windir`.
    pub windir: Option<String>,
    /// `COMSPEC`.
    pub comspec: Option<String>,
}

impl ShellEnv {
    /// The shell that is asked for: the override, trimmed, or on POSIX the
    /// user's own shell. On Windows that one is usually a stray path that a
    /// native terminal cannot spawn.
    pub open spec fn requested(&self) -> Option<Seq<char>> {
        match text::non_blank(self.override_shell.deep_view()) {
            Some(shell) => Some(shell),
            None => if self.is_windows {
                None
            } else {
                match self.shell {
                    Some(shell) => if text::is_blank(shell@) {
                        None
                    } else {
                        Some(shell@)
                    },
                    None => None,
                }
            },
        }
    }

    /// The PowerShell that comes with the system.
    pub open spec fn builtin_powershell(&self) -> Seq<char> {
        let root = match self.system_root {
            Some(dir) => dir@,
            None => match self.windir {
                Some(dir) => dir@,
                None => "C:\\Windows"@,
            },
        };
        paths::joined(
            paths::joined(
                paths::joined(
                    paths::joined(root, "System32"@, self.is_windows),
                    "WindowsPowerShell"@,
                    self.is_windows,
                ),
                "v1.0"@,
                self.is_windows,
            ),
            "powershell.exe"@,
            self.is_windows,
        )
    }

    /// What is tried for a requested shell: as a path, then on `PATH`.
    pub open spec fn requested_programs(&self) -> Seq<Seq<char>> {
        match self.requested() {
            Some(shell) => seq![shell] + command::path_programs(
                self.path_dirs.deep_view(),
                shell,
                self.is_windows,
            ),
            None => Seq::empty(),
        }
    }

    /// What is tried where no requested shell runs.
    pub open spec fn usual_programs(&self) -> Seq<Seq<char>> {
        if self.is_windows {
            command::path_programs(self.path_dirs.deep_view(), "pwsh"@, true).push(
                self.builtin_powershell(),
            )
        } else {
            seq!["/bin/zsh"@, "/bin/bash"@, "/bin/sh"@]
        }
    }

    /// Everything that is tried, in order.
    pub open spec fn shell_programs(&self) -> Seq<Seq<char>> {
        self.requested_programs() + self.usual_programs()
    }

    /// The shell that is left where nothing that is tried runs.
    pub open spec fn last_resort(&self) -> Seq<char> {
        if self.is_windows {
            match self.comspec {
                Some(shell) => shell@,
                None => "cmd.exe"@,
            }
        } else {
            "/bin/sh"@
        }
    }

    fn requested_shell(&self) -> (r: Option<String>)
        ensures
            r.deep_view() == self.requested(),
    {
        match text::trim_option(text::borrowed(&self.override_shell)) {
            Some(shell) => Some(shell),
            None => {
                if self.is_windows {
                    return None;
                }
                match &self.shell {
                    Some(shell) => {
                        let trimmed = text::trim(shell.as_str());
                        if text::is_empty(trimmed.as_str()) {
                            None
                        } else {
                            Some(shell.clone())
                        }
                    },
                    None => None,
                }
            },
        }
    }

    fn system_powershell(&self) -> (r: String)
        ensures
            r@ == self.builtin_powershell(),
    {
        let root = match &self.system_root {
            Some(dir) => dir.clone(),
            None => match &self.windir {
                Some(dir) => dir.clone(),
                None => "C:\\Windows".to_owned(),
            },
        };
        let system = paths::join(root.as_str(), "System32", self.is_windows);
        let powershell = paths::join(system.as_str(), "WindowsPowerShell", self.is_windows);
        let version = paths::join(powershell.as_str(), "v1.0", self.is_windows);
        paths::join(version.as_str(), "powershell.exe", self.is_windows)
    }

    fn candidates(&self) -> (r: Vec<String>)
        ensures
            r.deep_view() == self.shell_programs(),
    {
        let mut all: Vec<String> = Vec::new();
        proof {
            assert(all.deep_view() =~= Seq::<Seq<char>>::empty());
        }
        if let Some(shell) = self.requested_shell() {
            let found = command::path_candidates(&self.path_dirs, shell.as_str(), self.is_windows);
            all.push(shell);
            proof {
                assert(all.deep_view() =~= seq![shell@]);
            }
            text::extend_list(&mut all, &found);
        }
        assert(all.deep_view() =~= self.requested_programs());
        if self.is_windows {
            let found = command::path_candidates(&self.path_dirs, "pwsh", true);
            text::extend_list(&mut all, &found);
            let ghost before = all.deep_view();
            all.push(self.system_powershell());
            proof {
                assert(all.deep_view() =~= before.push(self.builtin_powershell()));
                assert(all.deep_view() =~= self.shell_programs());
            }
        } else {
            let ghost before = all.deep_view();
            all.push("/bin/zsh".to_owned());
            all.push("/bin/bash".to_owned());
            all.push("/bin/sh".to_owned());
            proof {
                assert(all.deep_view() =~= before + seq!["/bin/zsh"@, "/bin/bash"@, "/bin/sh"@]);
            }
        }
        all
    }
}

/// Whether `file_name`, asked for the last component of `path`, answered
/// `answer`.
pub open spec fn names<F: Fn(&str) -> Option<String>>(
    file_name: F,
    path: Seq<char>,
    answer: Option<Seq<char>>,
) -> bool {
    exists|p: &str, a: Option<String>|
        p@ == path && a.deep_view() == answer && #[trigger] call_ensures(file_name, (p,), a)
}

/// Whether `spec` is the shell that the environment stands for: the first
/// program that runs, or the last resort, called by its file name.
pub open spec fn is_shell_of<F: Fn(&str) -> bool, G: Fn(&str) -> Option<String>>(
    spec: ShellSpec,
    env: ShellEnv,
    is_executable: F,
    file_name: G,
) -> bool {
    &&& exists|found: Option<Seq<char>>|
        {
            &&& #[trigger] probe::chosen(is_executable, env.shell_programs(), found)
            &&& spec.command@ == (match found {
                Some(path) => path,
                None => env.last_resort(),
            })
        }
    &&& exists|answer: Option<Seq<char>>|
        {
            &&& #[trigger] names(file_name, spec.command@, answer)
            &&& spec.name@ == shell_name(answer)
        }
    &&& spec.args.deep_view() == shell_args(spec.name@)
}

/// Resolve the interactive shell. An explicit override wins; the user's own
/// shell is honored on POSIX. `is_executable` says whether a path is an absolute
/// path of a program, `file_name` what its last component is.
pub fn terminal_shell_spec<F: Fn(&str) -> bool, G: Fn(&str) -> Option<String>>(
    env: &ShellEnv,
    is_executable: &F,
    file_name: &G,
) -> (r: ShellSpec)
    requires
        forall|p: &str| call_requires(*is_executable, (p,)),
        forall|p: &str| call_requires(*file_name, (p,)),
    ensures
        is_shell_of(r, *env, *is_executable, *file_name),
{
    let candidates = env.candidates();
    let found = probe::first_accepted(&candidates, is_executable);
    let ghost choice = found.deep_view();
    let path = match found {
        Some(path) => path,
        None => {
            if env.is_windows {
                match &env.comspec {
                    Some(shell) => shell.clone(),
                    None => "cmd.exe".to_owned(),
                }
            } else {
                "/bin/sh".to_owned()
            }
        },
    };
    let asked = path.as_str();
    let answer = file_name(asked);
    proof {
        assert(call_ensures(*file_name, (asked,), answer));
        assert(names(*file_name, path@, answer.deep_view()));
    }
    let spec = shell_spec_for(path.as_str(), text::borrowed(&answer));
    proof {
        assert(probe::chosen(*is_executable, env.shell_programs(), choice));
    }
    spec
}

/// The name of the shell that the next terminal would run.
pub fn resolve_shell_name<F: Fn(&str) -> bool, G: Fn(&str) -> Option<String>>(
    env: &ShellEnv,
    is_executable: &F,
    file_name: &G,
) -> (r: String)
    requires
        forall|p: &str| call_requires(*is_executable, (p,)),
        forall|p: &str| call_requires(*file_name, (p,)),
    ensures
        exists|spec: ShellSpec| #[trigger]
            is_shell_of(spec, *env, *is_executable, *file_name) && r@ == spec.name@,
{
    let spec = terminal_shell_spec(env, is_executable, file_name);
    let name = spec.name.clone();
    assert(is_shell_of(spec, *env, *is_executable, *file_name) && name@ == spec.name@);
    name
}

// ---------------------------------------------------------------------------
// The session
// ---------------------------------------------------------------------------
/// Where a terminal starts if it cannot start where it is asked to: the home
/// that the environment names, or the one that the platform reports.
pub open spec fn fallback_cwd(
    home: Option<Seq<char>>,
    user_profile: Option<Seq<char>>,
    home_dir: Seq<char>,
) -> Seq<char> {
    match home {
        Some(dir) => dir,
        None => match user_profile {
            Some(dir) => dir,
            None => home_dir,
        },
    }
}

/// A directory that the shell can actually start in. A directory that vanished
/// since the tab was saved must not fail the start.
pub fn safe_terminal_cwd<F: Fn(&str) -> bool>(
    requested: Option<&str>,
    home: Option<&str>,
    user_profile: Option<&str>,
    home_dir: &str,
    is_dir: &F,
) -> (r: String)
    requires
        forall|p: &str| call_requires(*is_dir, (p,)),
    ensures
        match text::non_blank(requested.deep_view()) {
            Some(dir) => {
                ||| probe::says(*is_dir, dir, true) && r@ == dir
                ||| probe::says(*is_dir, dir, false) && r@ == fallback_cwd(
                    home.deep_view(),
                    user_profile.deep_view(),
                    home_dir@,
                )
            },
            None => r@ == fallback_cwd(home.deep_view(), user_profile.deep_view(), home_dir@),
        },
{
    if let Some(dir) = text::trim_option(requested) {
        let asked = dir.as_str();
        let usable = is_dir(asked);
        proof {
            assert(call_ensures(*is_dir, (asked,), usable));
        }
        if usable {
            return dir;
        }
    }
    match home {
        Some(dir) => dir.to_owned(),
        None => match user_profile {
            Some(dir) => dir.to_owned(),
            None => home_dir.to_owned(),
        },
    }
}

/// How a terminal is to be opened.
#[derive(Debug, Clone, PartialEq, Eq)]
pub struct TerminalPlan {
    pub command: String,
    pub args: Vec<String>,
    pub cwd: String,
    pub cols: u16,
    pub rows: u16,
    /// Set over the inherited environment.
    pub env: Vec<(String, String)>,
    pub data_event: String,
    pub exit_event: String,
    pub result: TerminalStartResult,
}

/// The event that carries the output of a session.
pub open spec fn data_event_of(id: Seq<char>) -> Seq<char> {
    "hermes:terminal:"@ + id + ":data"@
}

/// The event that reports the end of a session.
pub open spec fn exit_event_of(id: Seq<char>) -> Seq<char> {
    "hermes:terminal:"@ + id + ":exit"@
}

/// Whether `plan` opens a terminal for the shell `spec` in `cwd` as asked,
/// under the session id `id`.
pub open spec fn is_plan_for(
    plan: TerminalPlan,
    spec: ShellSpec,
    cwd: Seq<char>,
    cols: Option<u32>,
    rows: Option<u32>,
    id: Seq<char>,
) -> bool {
    &&& plan.command@ == spec.command@
    &&& plan.args.deep_view() == spec.args.deep_view()
    &&& plan.cwd@ == cwd
    &&& plan.cols == clamped(cols, DEFAULT_COLS)
    &&& plan.rows == clamped(rows, DEFAULT_ROWS)
    &&& plan.env.deep_view() == seq![("TERM"@, "xterm-256color"@)]
    &&& plan.data_event@ == data_event_of(id)
    &&& plan.exit_event@ == exit_event_of(id)
    &&& plan.result.id@ == id
    &&& plan.result.cwd@ == cwd
    &&& plan.result.shell@ == spec.name@
}

/// A dimension of a terminal.
pub open spec fn clamped(value: Option<u32>, fallback: u32) -> u16 {
    let asked = match value {
        Some(value) => value,
        None => fallback,
    };
    if asked < 2 {
        2u16
    } else if asked > u16::MAX {
        u16::MAX
    } else {
        asked as u16
    }
}

/// How a terminal is to be opened for `spec` in `cwd`, under a fresh session
/// id.
pub fn start_terminal(spec: &ShellSpec, cwd: &str, cols: Option<u32>, rows: Option<u32>) -> (r:
    TerminalPlan)
    ensures
        is_plan_for(r, *spec, cwd@, cols, rows, r.result.id@),
        token::is_random_uuid(r.result.id@),
{
    let id = token::random_uuid();
    terminal_plan(spec, cwd, cols, rows, id.as_str())
}

/// How a terminal is to be opened under the session id `id`.
pub fn terminal_plan(
    spec: &ShellSpec,
    cwd: &str,
    cols: Option<u32>,
    rows: Option<u32>,
    id: &str,
) -> (r: TerminalPlan)
    ensures
        is_plan_for(r, *spec, cwd@, cols, rows, id@),
{
    let mut env: Vec<(String, String)> = Vec::new();
    env.push(("TERM".to_owned(), "xterm-256color".to_owned()));
    proof {
        assert(env.deep_view() =~= seq![("TERM"@, "xterm-256color"@)]);
    }
    TerminalPlan {
        command: spec.command.clone(),
        args: spec.args.duplicate(),
        cwd: cwd.to_owned(),
        cols: clamp_dimension(cols, DEFAULT_COLS),
        rows: clamp_dimension(rows, DEFAULT_ROWS),
        env,
        data_event: text::cat3("hermes:terminal:", id, ":data"),
        exit_event: text::cat3("hermes:terminal:", id, ":exit"),
        result: TerminalStartResult {
            id: id.to_owned(),
            cwd: cwd.to_owned(),
            shell: spec.name.clone(),
        },
    }
}

/// A chunk of a session's output as the renderer gets it.
pub fn output_chunk(bytes: &[u8]) -> (r: String)
    ensures
        r@ == text::unicode::lossy(bytes@),
{
    text::unicode::from_utf8_lossy(bytes)
}

/// How a shell ended: its exit code as a signed number, or -1 where the wait for
/// it failed. No signal is ever reported: a shell that a signal ended reports a
/// code beyond 128.
pub fn exit_payload(exit_code: Option<u32>) -> (r: TerminalExitPayload)
    ensures
        r.signal is None,
        match exit_code {
            Some(code) => if code <= i32::MAX {
                r.code == code
            } else {
                r.code == code - 0x1_0000_0000
            },
            None => r.code == -1,
        },
{
    match exit_code {
        Some(code) => {
            let wide: i64 = code as i64;
            let signed: i32 = if wide <= 2147483647 {
                wide as i32
            } else {
                (wide - 4294967296) as i32
            };
            TerminalExitPayload { code: signed, signal: None }
        },
        None => TerminalExitPayload { code: -1, signal: None },
    }
}

/// The failure to open a terminal.
pub fn open_failure(error: &str) -> (r: String)
    ensures
        r@ == "failed to open a pty: "@ + error@,
{
    text::cat("failed to open a pty: ", error)
}

/// The failure to start a shell.
pub fn shell_failure(command: &str, error: &str) -> (r: String)
    ensures
        r@ == "failed to spawn "@ + command@ + ": "@ + error@,
{
    text::cat4("failed to spawn ", command, ": ", error)
}

/// A terminal is never too small to live in: whatever size is asked for, no
/// side is below 2, and a size that a terminal can have is kept.
pub proof fn a_terminal_is_never_too_small(value: Option<u32>, fallback: u32)
    ensures
        clamped(value, fallback) >= 2,
        value matches Some(asked) && 2 <= asked <= u16::MAX ==> clamped(value, fallback) == value->0,
{
}

/// The two events of a session are told apart, and so are those of two
/// sessions.
pub proof fn session_events_are_distinct(first: Seq<char>, second: Seq<char>)
    requires
        token::is_random_uuid(first),
        token::is_random_uuid(second),
    ensures
        data_event_of(first) != exit_event_of(second),
        first != second ==> data_event_of(first) != data_event_of(second) && exit_event_of(first)
            != exit_event_of(second),
{
    reveal_strlit("hermes:terminal:");
    reveal_strlit(":data");
    reveal_strlit(":exit");
    assert(data_event_of(first)[53] == 'd');
    assert(exit_event_of(second)[53] == 'e');
    if first != second {
        assert(data_event_of(first).subrange(16, 52) =~= first);
        assert(data_event_of(second).subrange(16, 52) =~= second);
        assert(exit_event_of(first).subrange(16, 52) =~= first);
        assert(exit_event_of(second).subrange(16, 52) =~= second);
    }
}

// ---------------------------------------------------------------------------
// Laws
// ---------------------------------------------------------------------------
proof fn lemma_first_is_chosen<F: Fn(&str) -> bool>(
    is_executable: F,
    programs: Seq<Seq<char>>,
    found: Option<Seq<char>>,
)
    requires
        probe::chosen(is_executable, programs, found),
        programs.len() > 0,
        !probe::says(is_executable, programs[0], false),
    ensures
        found == Some(programs[0]),
{
    if let Some(path) = found {
        let i = choose|i: int|
            0 <= i < programs.len() && #[trigger] programs[i] == path && probe::says(
                is_executable,
                path,
                true,
            ) && forall|j: int|
                0 <= j < i ==> probe::says(is_executable, #[trigger] programs[j], false);
        if i > 0 {
            assert(probe::says(is_executable, programs[0], false));
        }
    } else {
        assert(probe::says(is_executable, programs[0], false));
    }
}

/// An override that runs is the shell, on every platform: it counts without the
/// white space around it, and nothing else is looked at.
pub proof fn an_override_that_runs_is_the_shell<
    F: Fn(&str) -> bool,
    G: Fn(&str) -> Option<String>,
>(spec: ShellSpec, env: ShellEnv, is_executable: F, file_name: G)
    requires
        is_shell_of(spec, env, is_executable, file_name),
        env.override_shell is Some,
        !text::is_blank(env.override_shell->0@),
        !probe::says(is_executable, text::trimmed(env.override_shell->0@), false),
    ensures
        spec.command@ == text::trimmed(env.override_shell->0@),
{
    let found = choose|found: Option<Seq<char>>|
        {
            &&& #[trigger] probe::chosen(is_executable, env.shell_programs(), found)
            &&& spec.command@ == (match found {
                Some(path) => path,
                None => env.last_resort(),
            })
        };
    assert(env.shell_programs()[0] == text::trimmed(env.override_shell->0@));
    lemma_first_is_chosen(is_executable, env.shell_programs(), found);
}

/// Off Windows the user's own shell, where it runs, is the shell, unless an
/// override is asked for.
pub proof fn the_users_own_shell_is_honored<F: Fn(&str) -> bool, G: Fn(&str) -> Option<String>>(
    spec: ShellSpec,
    env: ShellEnv,
    is_executable: F,
    file_name: G,
)
    requires
        is_shell_of(spec, env, is_executable, file_name),
        !env.is_windows,
        env.override_shell is None || text::is_blank(env.override_shell->0@),
        env.shell is Some,
        !text::is_blank(env.shell->0@),
        !probe::says(is_executable, env.shell->0@, false),
    ensures
        spec.command@ == env.shell->0@,
{
    let found = choose|found: Option<Seq<char>>|
        {
            &&& #[trigger] probe::chosen(is_executable, env.shell_programs(), found)
            &&& spec.command@ == (match found {
                Some(path) => path,
                None => env.last_resort(),
            })
        };
    assert(env.shell_programs()[0] == env.shell->0@);
    lemma_first_is_chosen(is_executable, env.shell_programs(), found);
}

/// What is tried for a shell, in order. One that is asked for is tried as a path
/// and then in every directory of the search path. On Windows `SHELL` is not
/// looked at: a PowerShell of the search path comes next and the one of the system
/// last. Elsewhere `zsh`, `bash` and `sh` follow.
pub proof fn shells_are_tried_in_order(env: ShellEnv)
    ensures
        ({
            let w = env.is_windows;
            let dirs = env.path_dirs.deep_view();
            let usual = if w {
                command::path_programs(dirs, "pwsh"@, true) + seq![env.builtin_powershell()]
            } else {
                seq!["/bin/zsh"@, "/bin/bash"@, "/bin/sh"@]
            };
            let overridden = env.override_shell is Some && !text::is_blank(
                env.override_shell->0@,
            );
            let own = !w && env.shell is Some && !text::is_blank(env.shell->0@);
            let programs = env.shell_programs();
            &&& overridden ==> ({
                let shell = text::trimmed(env.override_shell->0@);
                programs == seq![shell] + command::path_programs(dirs, shell, w) + usual
            })
            &&& !overridden && own ==> programs == seq![env.shell->0@] + command::path_programs(
                dirs,
                env.shell->0@,
                w,
            ) + usual
            &&& !overridden && !own ==> programs == usual
        }),
        !env.is_windows ==> env.last_resort() == "/bin/sh"@,
        env.is_windows && env.comspec is Some ==> env.last_resort() == env.comspec->0@,
        env.is_windows && env.comspec is None ==> env.last_resort() == "cmd.exe"@,
{
    let w = env.is_windows;
    let dirs = env.path_dirs.deep_view();
    let usual = if w {
        command::path_programs(dirs, "pwsh"@, true) + seq![env.builtin_powershell()]
    } else {
        seq!["/bin/zsh"@, "/bin/bash"@, "/bin/sh"@]
    };
    assert(env.usual_programs() =~= usual);
    if env.requested() is None {
        assert(env.shell_programs() =~= usual);
    }
}

/// The PowerShell of the system is below the directory that `SystemRoot` names,
/// else the one that `windir` names, else `C:\Windows`.
pub proof fn the_systems_powershell_is_below_its_root(env: ShellEnv)
    requires
        env.is_windows,
    ensures
        ({
            let root = if env.system_root is Some {
                env.system_root->0@
            } else if env.windir is Some {
                env.windir->0@
            } else {
                "C:\\Windows"@
            };
            paths::is_folder(root, true) ==> env.builtin_powershell() == root + "\\"@ + "System32"@
                + "\\"@ + "WindowsPowerShell"@ + "\\"@ + "v1.0"@ + "\\"@ + "powershell.exe"@
        }),
{
    reveal_strlit("System32");
    reveal_strlit("WindowsPowerShell");
    reveal_strlit("v1.0");
    reveal_strlit("powershell.exe");
    let root = if env.system_root is Some {
        env.system_root->0@
    } else if env.windir is Some {
        env.windir->0@
    } else {
        "C:\\Windows"@
    };
    if paths::is_folder(root, true) {
        paths::a_name_goes_below_its_folder(root, "System32"@, true);
        let system = paths::joined(root, "System32"@, true);
        paths::a_name_goes_below_its_folder(system, "WindowsPowerShell"@, true);
        let powershell = paths::joined(system, "WindowsPowerShell"@, true);
        paths::a_name_goes_below_its_folder(powershell, "v1.0"@, true);
        let version = paths::joined(powershell, "v1.0"@, true);
        paths::a_name_goes_below_its_folder(version, "powershell.exe"@, true);
    }
}

/// How a shell is made interactive goes by its name: a PowerShell without its
/// banner, `cmd` as it is, a `zsh` or `bash` as a login shell, and any other just
/// interactive.
pub proof fn a_shell_is_made_interactive_by_its_name(
    rest: Seq<char>,
    before: Seq<char>,
    name: Seq<char>,
)
    ensures
        shell_args("pwsh"@ + rest) == seq!["-NoLogo"@],
        shell_args("powershell"@ + rest) == seq!["-NoLogo"@],
        shell_args("cmd"@ + rest).len() == 0,
        ({
            let special = text::scan::occurs_at(name, "pwsh"@, 0) || text::scan::occurs_at(
                name,
                "powershell"@,
                0,
            ) || text::scan::occurs_at(name, "cmd"@, 0);
            let login = text::scan::occurs(name, "zsh"@) || text::scan::occurs(name, "bash"@);
            &&& !special && login ==> shell_args(name) == seq!["-il"@]
            &&& !special && !login ==> shell_args(name) == seq!["-i"@]
        }),
        shell_name(None) == "shell"@,
        shell_name(Some(name)) == text::unicode::lowercase(name),
{
    assert(("pwsh"@ + rest).subrange(0, "pwsh"@.len() as int) =~= "pwsh"@);
    assert(("powershell"@ + rest).subrange(0, "powershell"@.len() as int) =~= "powershell"@);
    let cmd = "cmd"@ + rest;
    assert(cmd.subrange(0, "cmd"@.len() as int) =~= "cmd"@);
    reveal_strlit("cmd");
    reveal_strlit("pwsh");
    reveal_strlit("powershell");
    assert(cmd[0] == 'c');
    if text::scan::occurs_at(cmd, "pwsh"@, 0) {
        assert(cmd.subrange(0, 4)[0] == cmd[0]);
    }
    if text::scan::occurs_at(cmd, "powershell"@, 0) {
        assert(cmd.subrange(0, 10)[0] == cmd[0]);
    }
}

/// A terminal is opened as it is asked for: with the shell and its arguments, in
/// its directory and with its size, 80 by 24 where none is asked for and never
/// beyond what a terminal can have. Its events and its result carry the id of the
/// session.
pub proof fn a_terminal_is_opened_as_asked(
    plan: TerminalPlan,
    spec: ShellSpec,
    cwd: Seq<char>,
    cols: Option<u32>,
    rows: Option<u32>,
    id: Seq<char>,
)
    requires
        is_plan_for(plan, spec, cwd, cols, rows, id),
    ensures
        plan.command@ == spec.command@,
        plan.args.deep_view() == spec.args.deep_view(),
        plan.cwd@ == cwd && plan.result.cwd@ == cwd,
        plan.result.shell@ == spec.name@,
        plan.result.id@ == id,
        cols is None ==> plan.cols == 80,
        rows is None ==> plan.rows == 24,
        cols matches Some(asked) ==> plan.cols == if asked < 2 {
            2
        } else if asked > 65535 {
            65535
        } else {
            asked as int
        },
        rows matches Some(asked) ==> plan.rows == if asked < 2 {
            2
        } else if asked > 65535 {
            65535
        } else {
            asked as int
        },
        plan.env.deep_view() == seq![("TERM"@, "xterm-256color"@)],
        plan.data_event@ == "hermes:terminal:"@ + id + ":data"@,
        plan.exit_event@ == "hermes:terminal:"@ + id + ":exit"@,
{
}

/// A terminal that cannot start where it is asked to starts in the home that the
/// environment names, `HOME` before `USERPROFILE`, and else in the one that the
/// platform reports.
pub proof fn a_terminal_falls_back_to_the_home(
    home: Option<Seq<char>>,
    user_profile: Option<Seq<char>>,
    home_dir: Seq<char>,
)
    ensures
        home matches Some(dir) ==> fallback_cwd(home, user_profile, home_dir) == dir,
        home is None && user_profile is Some ==> fallback_cwd(home, user_profile, home_dir)
            == user_profile->0,
        home is None && user_profile is None ==> fallback_cwd(home, user_profile, home_dir)
            == home_dir,
{
}

// ---------------------------------------------------------------------------
// Laws of the operations themselves
// ---------------------------------------------------------------------------
/// Off Windows, and with no override, the shell of a terminal is the user's own
/// wherever that is a program.
pub proof fn a_terminal_runs_the_users_shell<F: Fn(&str) -> bool, G: Fn(&str) -> Option<String>>(
    env: ShellEnv,
    is_executable: F,
    file_name: G,
    r: ShellSpec,
)
    requires
        call_ensures(terminal_shell_spec::<F, G>, (&env, &is_executable, &file_name), r),
        !env.is_windows,
        env.override_shell is None || text::is_blank(env.override_shell->0@),
        env.shell is Some,
        !text::is_blank(env.shell->0@),
        !probe::says(is_executable, env.shell->0@, false),
    ensures
        r.command@ == env.shell->0@,
{
    the_users_own_shell_is_honored(r, env, is_executable, file_name);
}

/// A terminal starts where it is asked to, without the white space around it, if
/// that is there, and else in the home.
pub proof fn a_terminal_starts_where_it_is_asked_to<F: Fn(&str) -> bool>(
    asked: &str,
    home: Option<&str>,
    user_profile: Option<&str>,
    home_dir: &str,
    is_dir: F,
    r: String,
    unasked: String,
)
    requires
        call_ensures(
            safe_terminal_cwd::<F>,
            (Some(asked), home, user_profile, home_dir, &is_dir),
            r,
        ),
        call_ensures(
            safe_terminal_cwd::<F>,
            (None::<&str>, home, user_profile, home_dir, &is_dir),
            unasked,
        ),
    ensures
        ({
            let base = if home is Some {
                home->0@
            } else if user_profile is Some {
                user_profile->0@
            } else {
                home_dir@
            };
            &&& unasked@ == base
            &&& text::is_blank(asked@) ==> r@ == base
            &&& !text::is_blank(asked@) && !probe::says(is_dir, text::trimmed(asked@), false)
                ==> r@ == text::trimmed(asked@)
            &&& !text::is_blank(asked@) && !probe::says(is_dir, text::trimmed(asked@), true) ==> r@
                == base
        }),
{
    assert(None::<&str>.deep_view() is None);
    a_terminal_falls_back_to_the_home(home.deep_view(), user_profile.deep_view(), home_dir@);
}

/// A program is one that is reached by its full path, is a file, and may be run by
/// somebody where the platform says who may.
pub proof fn a_program_may_be_run(
    is_absolute: bool,
    is_file: bool,
    bits: u32,
    r: bool,
    unmarked: bool,
)
    requires
        call_ensures(is_executable_file, (is_absolute, is_file, Some(bits)), r),
        call_ensures(is_executable_file, (is_absolute, is_file, None::<u32>), unmarked),
    ensures
        r <==> is_absolute && is_file && (bits & 0o100u32 != 0 || bits & 0o010u32 != 0 || bits
            & 0o001u32 != 0),
        unmarked <==> is_absolute && is_file,
{
    assert(bits & 0o111u32 != 0 <==> (bits & 0o100u32 != 0 || bits & 0o010u32 != 0 || bits
        & 0o001u32 != 0)) by (bit_vector);
}

/// The code that a shell ended with comes through, all thirty-two bits of it.
pub proof fn an_exit_code_comes_through(
    code: u32,
    r: TerminalExitPayload,
    unknown: TerminalExitPayload,
)
    requires
        call_ensures(exit_payload, (Some(code),), r),
        call_ensures(exit_payload, (None::<u32>,), unknown),
    ensures
        r.signal is None && unknown.signal is None,
        r.code == code || r.code + 0x1_0000_0000 == code,
        unknown.code == -1,
{
}

/// A shell goes by the name of its own file, in lower case, and is given the
/// arguments of that name; without a program that runs, it is the last resort.
pub proof fn a_shell_goes_by_its_file_name<F: Fn(&str) -> bool, G: Fn(&str) -> Option<String>>(
    env: ShellEnv,
    is_executable: F,
    file_name: G,
    r: ShellSpec,
)
    requires
        call_ensures(terminal_shell_spec::<F, G>, (&env, &is_executable, &file_name), r),
    ensures
        (forall|p: &str, answer: Option<String>|
            p@ == r.command@ && #[trigger] call_ensures(file_name, (p,), answer)
                ==> answer is None) ==> r.name@ == "shell"@,
        forall|name: Seq<char>|
            (forall|p: &str, answer: Option<String>|
                p@ == r.command@ && #[trigger] call_ensures(file_name, (p,), answer)
                    ==> answer.deep_view() == Some(name)) ==> r.name@
                == #[trigger] text::unicode::lowercase(name),
        r.args.deep_view() == shell_args(r.name@),
        (forall|i: int|
            0 <= i < env.shell_programs().len() ==> !probe::says(
                is_executable,
                #[trigger] env.shell_programs()[i],
                true,
            )) ==> r.command@ == env.last_resort(),
        r.command@ == env.last_resort() || env.shell_programs().contains(r.command@),
{
    let answer = choose|answer: Option<Seq<char>>|
        {
            &&& #[trigger] names(file_name, r.command@, answer)
            &&& r.name@ == shell_name(answer)
        };
    let (p, a) = choose|p: &str, a: Option<String>|
        p@ == r.command@ && a.deep_view() == answer && #[trigger] call_ensures(file_name, (p,), a);
    assert(call_ensures(file_name, (p,), a));
}

} // verus!
