//! The platform installer: which script runs, how it is called, and what its
//! output means.
use crate::bootstrap::events;
use crate::bootstrap::pin;
use crate::bootstrap::{
    BootstrapEvent, InstallStamp, ManifestPayload, StageDescriptor, StageResult,
};
use crate::paths;
use crate::probe;
use crate::text;
use vstd::prelude::*;

verus! {

/// The managed checkout below the Hermes home.
pub fn active_root(hermes_home: &str, is_windows: bool) -> (r: String)
    ensures
        r@ == paths::joined(hermes_home@, "hermes-agent"@, is_windows),
{
    paths::join(hermes_home, "hermes-agent", is_windows)
}

// ---------------------------------------------------------------------------
// The script
// ---------------------------------------------------------------------------
/// The file name of the platform's installer.
pub open spec fn script_name(is_windows: bool) -> Seq<char> {
    if is_windows {
        "install.ps1"@
    } else {
        "install.sh"@
    }
}

/// Its extension.
pub open spec fn script_ext(is_windows: bool) -> Seq<char> {
    if is_windows {
        "ps1"@
    } else {
        "sh"@
    }
}

/// The file name of the platform's installer.
pub fn install_script_name(is_windows: bool) -> (r: &'static str)
    ensures
        r@ == script_name(is_windows),
{
    if is_windows {
        "install.ps1"
    } else {
        "install.sh"
    }
}

/// Its extension.
pub fn install_script_ext(is_windows: bool) -> (r: &'static str)
    ensures
        r@ == script_ext(is_windows),
{
    if is_windows {
        "ps1"
    } else {
        "sh"
    }
}

/// Where the installer for `cache_key` is kept.
pub open spec fn cached_path(
    hermes_home: Seq<char>,
    cache_key: Seq<char>,
    is_windows: bool,
) -> Seq<char> {
    paths::joined(
        paths::joined(hermes_home, "bootstrap-cache"@, is_windows),
        "install-"@ + cache_key + "."@ + script_ext(is_windows),
        is_windows,
    )
}

/// Where the installer for `cache_key` is kept.
pub fn cached_script_path(hermes_home: &str, cache_key: &str, is_windows: bool) -> (r: String)
    ensures
        r@ == cached_path(hermes_home@, cache_key@, is_windows),
{
    let dir = paths::join(hermes_home, "bootstrap-cache", is_windows);
    let name = text::cat4("install-", cache_key, ".", install_script_ext(is_windows));
    paths::join(dir.as_str(), name.as_str(), is_windows)
}

/// The installer below a source tree.
pub open spec fn script_in(root: Seq<char>, is_windows: bool) -> Seq<char> {
    paths::joined(
        paths::joined(root, "scripts"@, is_windows),
        script_name(is_windows),
        is_windows,
    )
}

/// The installer inside an already installed agent checkout.
pub open spec fn installed_script(hermes_home: Seq<char>, is_windows: bool) -> Seq<char> {
    script_in(paths::joined(hermes_home, "hermes-agent"@, is_windows), is_windows)
}

fn script_below(root: &str, is_windows: bool) -> (r: String)
    ensures
        r@ == script_in(root@, is_windows),
{
    let dir = paths::join(root, "scripts", is_windows);
    paths::join(dir.as_str(), install_script_name(is_windows), is_windows)
}

/// Where the installer of a ref is downloaded from.
pub open spec fn download_url(ref_name: Seq<char>, is_windows: bool) -> Seq<char> {
    "https://raw.githubusercontent.com/NousResearch/hermes-agent/"@ + ref_name + "/scripts/"@
        + script_name(is_windows)
}

/// The position after the characters that start before the byte offset 12.
pub open spec fn short_end(ref_name: Seq<char>, i: int) -> int
    decreases ref_name.len() - i,
{
    if i < 0 || i >= ref_name.len() {
        ref_name.len() as int
    } else if text::bytes::byte_len(ref_name.take(i)) >= 12 {
        i
    } else {
        short_end(ref_name, i + 1)
    }
}

/// The first twelve bytes of a ref, for the log.
pub open spec fn short_ref(ref_name: Seq<char>) -> Seq<char> {
    ref_name.take(short_end(ref_name, 0))
}

/// Whether the first twelve bytes of a ref end with a character.
pub open spec fn short_ref_is_whole(ref_name: Seq<char>) -> bool {
    text::bytes::byte_len(short_ref(ref_name)) <= 12
}

/// Whether the ref of a stamp, if it has one, can be shortened for the log.
pub open spec fn can_shorten(stamp: Option<events::InstallStampView>) -> bool {
    match pin::install_ref(stamp) {
        Some(found) => short_ref_is_whole(found.ref_name),
        None => true,
    }
}

/// The first characters of a ref, for the log.
fn shorten(ref_name: &str) -> (r: String)
    ensures
        r@ == short_ref(ref_name@),
{
    let chars = text::chars_of(ref_name);
    let n: usize = chars.len();
    let mut i: usize = 0;
    while i < n
        invariant
            i <= n == chars@.len(),
            chars@ == ref_name@,
            short_end(chars@, 0) == short_end(chars@, i as int),
        decreases n - i,
    {
        let so_far = text::substring(&chars, 0, i);
        let measured = text::chars_of(so_far.as_str());
        let width: u128 = text::bytes::measure(&measured);
        proof {
            assert(chars@.subrange(0, i as int) =~= chars@.take(i as int));
        }
        if width >= 12 {
            return so_far;
        }
        i = i + 1;
    }
    proof {
        assert(chars@.take(n as int) =~= chars@);
    }
    ref_name.to_owned()
}

/// Whether the ref of a stamp can be shortened for the log: where this is
/// false, a ref is cut inside a character.
pub fn stamp_can_be_shown(stamp: Option<&InstallStamp>) -> (r: bool)
    ensures
        r == can_shorten(stamp.deep_view()),
{
    match pin::install_ref_for_stamp(stamp) {
        Some(found) => {
            let short = shorten(found.ref_name.as_str());
            let chars = text::chars_of(short.as_str());
            text::bytes::measure(&chars) <= 12
        },
        None => true,
    }
}

/// What is known of the installer.
#[derive(Debug, Clone, PartialEq, Eq)]
pub enum ScriptStep {
    /// It is this file.
    Use { path: String },
    /// It is to be downloaded from `url` to `dest`.
    Download { url: String, dest: String },
    /// There is none.
    Fail { error: String },
}

/// What a `ScriptStep` says.
#[verifier::ext_equal]
pub enum ScriptStepView {
    Use { path: Seq<char> },
    Download { url: Seq<char>, dest: Seq<char> },
    Fail { error: Seq<char> },
}

impl View for ScriptStep {
    type V = ScriptStepView;

    open spec fn view(&self) -> ScriptStepView {
        match self {
            ScriptStep::Use { path } => ScriptStepView::Use { path: path@ },
            ScriptStep::Download { url, dest } => ScriptStepView::Download {
                url: url@,
                dest: dest@,
            },
            ScriptStep::Fail { error } => ScriptStepView::Fail { error: error@ },
        }
    }
}

/// A line of the runner's own log.
pub open spec fn runner_log(line: Seq<char>) -> events::BootstrapEventView {
    events::BootstrapEventView::Log { stage: None, line, stream: Some("stdout"@) }
}

fn log_line(line: String) -> (r: BootstrapEvent)
    ensures
        r.deep_view() == runner_log(line@),
{
    BootstrapEvent::Log { stage: None, line, stream: Some("stdout".to_owned()) }
}

/// The remark on a ref that is no real commit.
pub open spec fn unpinned_remark(pinned: bool) -> Seq<char> {
    if pinned {
        ""@
    } else {
        " (fallback, unpinned)"@
    }
}

/// The failure to find an installer without a checkout and without a ref.
pub open spec fn no_installer(is_windows: bool) -> Seq<char> {
    "Cannot resolve "@ + script_name(is_windows)
        + ": no source checkout and no install stamp. This packaged build was produced without a valid build-time stamp."@
}

/// What is known of the installer before anything is downloaded, and what the
/// log says of it: the script of a source checkout is used where there is one,
/// else the cached script of the stamp's ref, and else the script is to be
/// downloaded. `local` and `cached` say whether those scripts exist.
pub open spec fn script_step(
    stamp: Option<events::InstallStampView>,
    source_repo_root: Option<Seq<char>>,
    hermes_home: Seq<char>,
    is_windows: bool,
    local: bool,
    cached: bool,
) -> (ScriptStepView, Seq<events::BootstrapEventView>) {
    let name = script_name(is_windows);
    if source_repo_root is Some && local {
        let path = script_in(source_repo_root->0, is_windows);
        (
            ScriptStepView::Use { path },
            seq![runner_log("[bootstrap] using local "@ + name + " at "@ + path)],
        )
    } else {
        match pin::install_ref(stamp) {
            None => (ScriptStepView::Fail { error: no_installer(is_windows) }, Seq::empty()),
            Some(found) => {
                let dest = cached_path(hermes_home, found.cache_key, is_windows);
                let short = short_ref(found.ref_name);
                let remark = unpinned_remark(found.pinned);
                if cached {
                    (
                        ScriptStepView::Use { path: dest },
                        seq![
                            runner_log(
                                "[bootstrap] using cached "@ + name + " for "@ + short + remark,
                            ),
                        ],
                    )
                } else {
                    (
                        ScriptStepView::Download {
                            url: download_url(found.ref_name, is_windows),
                            dest,
                        },
                        seq![
                            runner_log(
                                "[bootstrap] fetching "@ + name + " for "@ + short + " from GitHub"@
                                    + remark,
                            ),
                        ],
                    )
                }
            },
        }
    }
}

/// Whether `present` is what the host answers of the script of a source
/// checkout; without a checkout there is none.
pub open spec fn local_answer<F: Fn(&str) -> bool>(
    is_file: F,
    source_repo_root: Option<Seq<char>>,
    is_windows: bool,
    present: bool,
) -> bool {
    match source_repo_root {
        Some(root) => probe::says(is_file, script_in(root, is_windows), present),
        None => !present,
    }
}

/// Whether `present` is what the host answers of the cached script of the
/// stamp's ref; without a ref there is none.
pub open spec fn cached_answer<F: Fn(&str) -> bool>(
    is_file: F,
    stamp: Option<events::InstallStampView>,
    hermes_home: Seq<char>,
    is_windows: bool,
    present: bool,
) -> bool {
    match pin::install_ref(stamp) {
        Some(found) => probe::says(
            is_file,
            cached_path(hermes_home, found.cache_key, is_windows),
            present,
        ),
        None => !present,
    }
}

/// Whether the host can only answer that a source checkout has the script.
pub open spec fn surely_local<F: Fn(&str) -> bool>(
    is_file: F,
    source_repo_root: Option<Seq<char>>,
    is_windows: bool,
) -> bool {
    &&& source_repo_root is Some
    &&& forall|present: bool| #[trigger]
        probe::says(is_file, script_in(source_repo_root->0, is_windows), present) ==> present
}

fn ask<F: Fn(&str) -> bool>(is_file: &F, path: &str) -> (r: bool)
    requires
        forall|p: &str| call_requires(*is_file, (p,)),
    ensures
        probe::says(*is_file, path@, r),
{
    let r = is_file(path);
    assert(call_ensures(*is_file, (path,), r));
    r
}

/// Resolve the installer: the script of a source checkout, the cached script of
/// the stamp's ref, or a download. A ref whose first twelve bytes end inside a
/// character cannot be shown in the log; it is not shown where a source checkout
/// has the script.
pub fn resolve_install_script<F: Fn(&str) -> bool>(
    stamp: Option<&InstallStamp>,
    source_repo_root: Option<&str>,
    hermes_home: &str,
    is_windows: bool,
    is_file: &F,
) -> (r: (ScriptStep, Vec<BootstrapEvent>))
    requires
        forall|p: &str| call_requires(*is_file, (p,)),
        can_shorten(stamp.deep_view()) || surely_local(
            *is_file,
            source_repo_root.deep_view(),
            is_windows,
        ),
    ensures
        exists|local: bool, cached: bool|
            {
                &&& local_answer(*is_file, source_repo_root.deep_view(), is_windows, local)
                &&& !local ==> cached_answer(
                    *is_file,
                    stamp.deep_view(),
                    hermes_home@,
                    is_windows,
                    cached,
                )
                &&& (r.0@, r.1.deep_view()) == #[trigger] script_step(
                    stamp.deep_view(),
                    source_repo_root.deep_view(),
                    hermes_home@,
                    is_windows,
                    local,
                    cached,
                )
            },
{
    let local = match source_repo_root {
        Some(root) => {
            let path = script_below(root, is_windows);
            ask(is_file, path.as_str())
        },
        None => false,
    };
    let cached = if local {
        false
    } else {
        match pin::install_ref_for_stamp(stamp) {
            Some(found) => {
                let dest = cached_script_path(hermes_home, found.cache_key.as_str(), is_windows);
                ask(is_file, dest.as_str())
            },
            None => false,
        }
    };
    choose_script(stamp, source_repo_root, hermes_home, is_windows, local, cached)
}

/// The installer, given whether the scripts that it could be exist.
pub fn choose_script(
    stamp: Option<&InstallStamp>,
    source_repo_root: Option<&str>,
    hermes_home: &str,
    is_windows: bool,
    local: bool,
    cached: bool,
) -> (r: (ScriptStep, Vec<BootstrapEvent>))
    ensures
        (r.0@, r.1.deep_view()) == script_step(
            stamp.deep_view(),
            source_repo_root.deep_view(),
            hermes_home@,
            is_windows,
            local,
            cached,
        ),
{
    let name = install_script_name(is_windows);
    let mut log: Vec<BootstrapEvent> = Vec::new();
    if let Some(root) = source_repo_root {
        if local {
            let path = script_below(root, is_windows);
            log.push(
                log_line(text::cat4("[bootstrap] using local ", name, " at ", path.as_str())),
            );
            proof {
                assert(log.deep_view() =~= seq![
                    runner_log("[bootstrap] using local "@ + name@ + " at "@ + path@),
                ]);
            }
            return (ScriptStep::Use { path }, log);
        }
    }
    match pin::install_ref_for_stamp(stamp) {
        None => {
            proof {
                assert(log.deep_view() =~= Seq::<events::BootstrapEventView>::empty());
            }
            (
                ScriptStep::Fail {
                    error: text::cat3(
                        "Cannot resolve ",
                        name,
                        ": no source checkout and no install stamp. This packaged build was produced without a valid build-time stamp.",
                    ),
                },
                log,
            )
        },
        Some(found) => {
            let dest = cached_script_path(hermes_home, found.cache_key.as_str(), is_windows);
            let short = shorten(found.ref_name.as_str());
            let remark = if found.pinned {
                ""
            } else {
                " (fallback, unpinned)"
            };
            if cached {
                log.push(
                    log_line(
                        text::cat5(
                            "[bootstrap] using cached ",
                            name,
                            " for ",
                            short.as_str(),
                            remark,
                        ),
                    ),
                );
                proof {
                    assert(log.deep_view() =~= seq![
                        runner_log(
                            "[bootstrap] using cached "@ + name@ + " for "@ + short@ + remark@,
                        ),
                    ]);
                }
                (ScriptStep::Use { path: dest }, log)
            } else {
                let head = text::cat4("[bootstrap] fetching ", name, " for ", short.as_str());
                log.push(log_line(text::cat3(head.as_str(), " from GitHub", remark)));
                proof {
                    assert(log.deep_view() =~= seq![
                        runner_log(
                            "[bootstrap] fetching "@ + name@ + " for "@ + short@ + " from GitHub"@
                                + remark@,
                        ),
                    ]);
                }
                let url = text::cat4(
                    "https://raw.githubusercontent.com/NousResearch/hermes-agent/",
                    found.ref_name.as_str(),
                    "/scripts/",
                    name,
                );
                (ScriptStep::Download { url, dest }, log)
            }
        },
    }
}

/// What is known of the installer after a download to `dest`, and what the log
/// says of it: a failed download falls back to the script of an installed
/// agent, where `installed` says that there is one.
pub open spec fn script_after_download(
    dest: Seq<char>,
    failure: Option<Seq<char>>,
    hermes_home: Seq<char>,
    is_windows: bool,
    installed: bool,
) -> (ScriptStepView, Seq<events::BootstrapEventView>) {
    match failure {
        None => (
            ScriptStepView::Use { path: dest },
            seq![runner_log("[bootstrap] saved to "@ + dest)],
        ),
        Some(error) => if installed {
            let path = installed_script(hermes_home, is_windows);
            (
                ScriptStepView::Use { path },
                seq![
                    runner_log(
                        "[bootstrap] GitHub fetch failed ("@ + error
                            + "); falling back to installed agent "@ + script_name(is_windows)
                            + " at "@ + path,
                    ),
                ],
            )
        } else {
            (ScriptStepView::Fail { error }, Seq::empty())
        },
    }
}

/// Resolve the installer after a download: the downloaded script, or the one of
/// an installed agent where the download failed.
pub fn after_download<F: Fn(&str) -> bool>(
    dest: &str,
    failure: Option<&str>,
    hermes_home: &str,
    is_windows: bool,
    is_file: &F,
) -> (r: (ScriptStep, Vec<BootstrapEvent>))
    requires
        forall|p: &str| call_requires(*is_file, (p,)),
    ensures
        exists|installed: bool|
            {
                &&& failure is Some ==> probe::says(
                    *is_file,
                    installed_script(hermes_home@, is_windows),
                    installed,
                )
                &&& (r.0@, r.1.deep_view()) == #[trigger] script_after_download(
                    dest@,
                    failure.deep_view(),
                    hermes_home@,
                    is_windows,
                    installed,
                )
            },
{
    match failure {
        None => downloaded(dest, None, hermes_home, is_windows, false),
        Some(error) => {
            let root = active_root(hermes_home, is_windows);
            let path = script_below(root.as_str(), is_windows);
            let installed = ask(is_file, path.as_str());
            downloaded(dest, Some(error), hermes_home, is_windows, installed)
        },
    }
}

/// The installer after a download, given whether an installed agent has one.
pub fn downloaded(
    dest: &str,
    failure: Option<&str>,
    hermes_home: &str,
    is_windows: bool,
    installed: bool,
) -> (r: (ScriptStep, Vec<BootstrapEvent>))
    ensures
        (r.0@, r.1.deep_view()) == script_after_download(
            dest@,
            failure.deep_view(),
            hermes_home@,
            is_windows,
            installed,
        ),
{
    let mut log: Vec<BootstrapEvent> = Vec::new();
    match failure {
        None => {
            log.push(log_line(text::cat("[bootstrap] saved to ", dest)));
            proof {
                assert(log.deep_view() =~= seq![runner_log("[bootstrap] saved to "@ + dest@)]);
            }
            (ScriptStep::Use { path: dest.to_owned() }, log)
        },
        Some(error) => {
            if installed {
                let root = active_root(hermes_home, is_windows);
                let path = script_below(root.as_str(), is_windows);
                let name = install_script_name(is_windows);
                let head = text::cat4(
                    "[bootstrap] GitHub fetch failed (",
                    error,
                    "); falling back to installed agent ",
                    name,
                );
                log.push(log_line(text::cat3(head.as_str(), " at ", path.as_str())));
                proof {
                    assert(log.deep_view() =~= seq![
                        runner_log(
                            "[bootstrap] GitHub fetch failed ("@ + error@
                                + "); falling back to installed agent "@ + name@ + " at "@ + path@,
                        ),
                    ]);
                }
                (ScriptStep::Use { path }, log)
            } else {
                proof {
                    assert(log.deep_view() =~= Seq::<events::BootstrapEventView>::empty());
                }
                (ScriptStep::Fail { error: error.to_owned() }, log)
            }
        },
    }
}

/// The failure of a download.
pub fn download_failure(error: &str, is_windows: bool) -> (r: String)
    ensures
        r@ == "Failed to download "@ + script_name(is_windows) + ": "@ + error@,
{
    text::cat4("Failed to download ", install_script_name(is_windows), ": ", error)
}

/// The failure to read what was downloaded.
pub fn download_read_failure(error: &str, is_windows: bool) -> (r: String)
    ensures
        r@ == "Failed to read "@ + script_name(is_windows) + ": "@ + error@,
{
    text::cat4("Failed to read ", install_script_name(is_windows), ": ", error)
}

/// The failure to create a directory.
pub fn create_failure(dir: &str, error: &str) -> (r: String)
    ensures
        r@ == "Failed to create "@ + dir@ + ": "@ + error@,
{
    text::cat4("Failed to create ", dir, ": ", error)
}

/// The failure to write a file.
pub fn write_failure(path: &str, error: &str) -> (r: String)
    ensures
        r@ == "Failed to write "@ + path@ + ": "@ + error@,
{
    text::cat4("Failed to write ", path, ": ", error)
}

// ---------------------------------------------------------------------------
// Calling it
// ---------------------------------------------------------------------------
/// How the installer is to be started. `HERMES_HOME` is set to the directory in
/// which it runs.
#[derive(Debug, Clone, PartialEq, Eq)]
pub struct InstallerPlan {
    pub program: String,
    pub args: Vec<String>,
    pub hermes_home: String,
}

/// What an `InstallerPlan` says.
#[verifier::ext_equal]
pub struct InstallerPlanView {
    pub program: Seq<char>,
    pub args: Seq<Seq<char>>,
    pub hermes_home: Seq<char>,
}

impl DeepView for InstallerPlan {
    type V = InstallerPlanView;

    open spec fn deep_view(&self) -> InstallerPlanView {
        InstallerPlanView {
            program: self.program@,
            args: self.args.deep_view(),
            hermes_home: self.hermes_home@,
        }
    }
}

/// The program that runs the platform's installer.
pub open spec fn interpreter(is_windows: bool) -> Seq<char> {
    if is_windows {
        "powershell.exe"@
    } else {
        "bash"@
    }
}

/// The installer `script` with the arguments `args`.
pub open spec fn installer_call(
    script: Seq<char>,
    args: Seq<Seq<char>>,
    hermes_home: Seq<char>,
    is_windows: bool,
) -> InstallerPlanView {
    InstallerPlanView {
        program: interpreter(is_windows),
        args: (if is_windows {
            seq!["-NoProfile"@, "-ExecutionPolicy"@, "Bypass"@, "-File"@, script]
        } else {
            seq![script]
        }) + args,
        hermes_home,
    }
}

/// How to start the installer `script` with the arguments `args`.
pub fn installer_plan(
    script: &str,
    args: &Vec<String>,
    hermes_home: &str,
    is_windows: bool,
) -> (r: InstallerPlan)
    ensures
        r.deep_view() == installer_call(script@, args.deep_view(), hermes_home@, is_windows),
{
    let mut all: Vec<String> = Vec::new();
    if is_windows {
        all.push("-NoProfile".to_owned());
        all.push("-ExecutionPolicy".to_owned());
        all.push("Bypass".to_owned());
        all.push("-File".to_owned());
    }
    all.push(script.to_owned());
    let ghost head = all.deep_view();
    proof {
        assert(head =~= if is_windows {
            seq!["-NoProfile"@, "-ExecutionPolicy"@, "Bypass"@, "-File"@, script@]
        } else {
            seq![script@]
        });
    }
    text::extend_list(&mut all, args);
    InstallerPlan {
        program: (if is_windows {
            "powershell.exe"
        } else {
            "bash"
        }).to_owned(),
        args: all,
        hermes_home: hermes_home.to_owned(),
    }
}

/// What is installed, and where.
#[derive(Debug, Clone, PartialEq, Eq)]
pub struct InstallTarget {
    pub stamp: Option<InstallStamp>,
    pub active_root: String,
    pub hermes_home: String,
    pub is_windows: bool,
    pub pin_commit: bool,
}

/// What an `InstallTarget` says.
#[verifier::ext_equal]
pub struct InstallTargetView {
    pub stamp: Option<events::InstallStampView>,
    pub active_root: Seq<char>,
    pub hermes_home: Seq<char>,
    pub is_windows: bool,
    pub pin_commit: bool,
}

impl DeepView for InstallTarget {
    type V = InstallTargetView;

    open spec fn deep_view(&self) -> InstallTargetView {
        InstallTargetView {
            stamp: self.stamp.deep_view(),
            active_root: self.active_root@,
            hermes_home: self.hermes_home@,
            is_windows: self.is_windows,
            pin_commit: self.pin_commit,
        }
    }
}

impl InstallTargetView {
    /// The arguments that say what is installed, and where.
    pub open spec fn target_args(self) -> Seq<Seq<char>> {
        if self.is_windows {
            pin::pin_args(self.stamp, self.pin_commit)
        } else {
            pin::posix_args(self.stamp, self.active_root, self.hermes_home, self.pin_commit)
        }
    }

    /// The arguments that ask for the manifest.
    pub open spec fn manifest_args(self) -> Seq<Seq<char>> {
        seq![
            if self.is_windows {
                "-Manifest"@
            } else {
                "--manifest"@
            },
        ] + self.target_args()
    }

    /// The arguments that run one stage.
    pub open spec fn stage_args(self, stage: Seq<char>) -> Seq<Seq<char>> {
        (if self.is_windows {
            seq!["-Stage"@, stage, "-NonInteractive"@, "-Json"@]
        } else {
            seq!["--stage"@, stage, "--non-interactive"@, "--json"@]
        }) + self.target_args()
    }
}

impl InstallTarget {
    fn stamp_ref(&self) -> (r: Option<&InstallStamp>)
        ensures
            r.deep_view() == self.stamp.deep_view(),
    {
        match &self.stamp {
            Some(stamp) => Some(stamp),
            None => None,
        }
    }

    fn target_args(&self) -> (r: Vec<String>)
        ensures
            r.deep_view() == self.deep_view().target_args(),
    {
        if self.is_windows {
            pin::build_pin_args(self.stamp_ref(), self.pin_commit)
        } else {
            pin::posix_pin_args(
                self.stamp_ref(),
                self.active_root.as_str(),
                self.hermes_home.as_str(),
                self.pin_commit,
            )
        }
    }

    /// The arguments that ask for the manifest.
    pub fn manifest_args(&self) -> (r: Vec<String>)
        ensures
            r.deep_view() == self.deep_view().manifest_args(),
    {
        let mut args: Vec<String> = Vec::new();
        if self.is_windows {
            args.push("-Manifest".to_owned());
        } else {
            args.push("--manifest".to_owned());
        }
        proof {
            assert(args.deep_view() =~= seq![
                if self.is_windows {
                    "-Manifest"@
                } else {
                    "--manifest"@
                },
            ]);
        }
        text::extend_list(&mut args, &self.target_args());
        args
    }

    /// The arguments that run one stage.
    pub fn stage_args(&self, stage: &str) -> (r: Vec<String>)
        ensures
            r.deep_view() == self.deep_view().stage_args(stage@),
    {
        let mut args: Vec<String> = Vec::new();
        if self.is_windows {
            args.push("-Stage".to_owned());
            args.push(stage.to_owned());
            args.push("-NonInteractive".to_owned());
            args.push("-Json".to_owned());
        } else {
            args.push("--stage".to_owned());
            args.push(stage.to_owned());
            args.push("--non-interactive".to_owned());
            args.push("--json".to_owned());
        }
        proof {
            assert(args.deep_view() =~= if self.is_windows {
                seq!["-Stage"@, stage@, "-NonInteractive"@, "-Json"@]
            } else {
                seq!["--stage"@, stage@, "--non-interactive"@, "--json"@]
            });
        }
        text::extend_list(&mut args, &self.target_args());
        args
    }
}

/// The failure of an installer that could not be started.
pub fn installer_spawn_failure(script: &str, error: &str, is_windows: bool) -> (r: String)
    ensures
        r@ == "Failed to spawn "@ + interpreter(is_windows) + " ("@ + script@ + "): "@ + error@,
{
    let program = if is_windows {
        "powershell.exe"
    } else {
        "bash"
    };
    let head = text::cat4("Failed to spawn ", program, " (", script);
    text::cat3(head.as_str(), "): ", error)
}

/// The failure to wait for an installer.
pub fn installer_wait_failure(error: &str) -> (r: String)
    ensures
        r@ == "Failed to wait for installer: "@ + error@,
{
    text::cat("Failed to wait for installer: ", error)
}

// ---------------------------------------------------------------------------
// What its output means
// ---------------------------------------------------------------------------
/// The name of the installer's output in its log.
pub const STDOUT: &'static str = "stdout";

/// The name of the installer's errors in its log.
pub const STDERR: &'static str = "stderr";

/// The log of one stream of the installer: each line that is not empty.
pub open spec fn stream_log(
    lines: Seq<Seq<char>>,
    stage: Seq<char>,
    stream: Seq<char>,
) -> Seq<events::BootstrapEventView>
    decreases lines.len(),
{
    if lines.len() == 0 {
        Seq::empty()
    } else if lines.last().len() == 0 {
        stream_log(lines.drop_last(), stage, stream)
    } else {
        stream_log(lines.drop_last(), stage, stream).push(
            events::BootstrapEventView::Log {
                stage: Some(stage),
                line: lines.last(),
                stream: Some(stream),
            },
        )
    }
}

/// What is reported when the output `all` that has not been reported yet is in:
/// its whole lines. A line that is not at its end is held back.
pub open spec fn reported_of(all: Seq<char>, stage: Seq<char>, stream: Seq<char>) -> Seq<
    events::BootstrapEventView,
> {
    stream_log(text::scan::lines(all.take(text::scan::end_of_last_line(all))), stage, stream)
}

/// What is held back of the output `all`.
pub open spec fn held_back(all: Seq<char>) -> Seq<char> {
    all.skip(text::scan::end_of_last_line(all))
}

/// Report decoded output of the installer as it comes: the events of the lines
/// that `chunk` brings to their end. `pending` holds the line that is under way.
pub fn take_output(pending: &mut String, chunk: &str, stage: &str, stream: &str) -> (r: Vec<
    BootstrapEvent,
>)
    ensures
        final(pending)@ == held_back(old(pending)@ + chunk@),
        r.deep_view() == reported_of(old(pending)@ + chunk@, stage@, stream@),
        !final(pending)@.contains('\n'),
{
    let ghost all = pending@ + chunk@;
    pending.append(chunk);
    let chars = text::chars_of(pending.as_str());
    let n: usize = text::scan::last_line_end(&chars);
    proof {
        text::scan::lemma_end_of_last_line(all);
        assert(all.subrange(0, n as int) =~= all.take(n as int));
        assert(all.subrange(n as int, all.len() as int) =~= held_back(all));
    }
    let whole = text::substring(&chars, 0, n);
    let total: usize = chars.len();
    let rest = text::substring(&chars, n, total);
    *pending = rest;
    end_output(whole.as_str(), stage, stream)
}

/// Report what is left when a stream of the installer ends: the events of the
/// line that was still under way.
pub fn end_output(pending: &str, stage: &str, stream: &str) -> (r: Vec<BootstrapEvent>)
    ensures
        r.deep_view() == stream_log(text::scan::lines(pending@), stage@, stream@),
{
    let lines = text::scan::split_lines(pending);
    let ghost all = lines.deep_view();
    let mut log: Vec<BootstrapEvent> = Vec::new();
    let mut i: usize = 0;
    proof {
        assert(log.deep_view() =~= stream_log(all.take(0), stage@, stream@));
    }
    while i < lines.len()
        invariant
            i <= lines@.len(),
            all == lines.deep_view(),
            log.deep_view() == stream_log(all.take(i as int), stage@, stream@),
        decreases lines@.len() - i,
    {
        let line = lines[i].as_str();
        let ghost before = log.deep_view();
        proof {
            assert(all.take(i + 1).drop_last() =~= all.take(i as int));
            assert(all.take(i + 1).last() == line@);
        }
        if !text::is_empty(line) {
            let event = BootstrapEvent::Log {
                stage: Some(stage.to_owned()),
                line: line.to_owned(),
                stream: Some(stream.to_owned()),
            };
            let ghost shown = event.deep_view();
            log.push(event);
            proof {
                assert(log.deep_view() =~= before.push(shown));
            }
        }
        i = i + 1;
    }
    proof {
        assert(all.take(i as int) =~= all);
    }
    log
}

/// Take a chunk of one stream of the running installer: it is collected, and the
/// lines that it brings to their end are reported at once.
pub fn collect_output(
    collected: &mut String,
    pending: &mut String,
    bytes: &[u8],
    stage: &str,
    stream: &str,
) -> (r: Vec<BootstrapEvent>)
    ensures
        final(collected)@ == old(collected)@ + text::unicode::lossy(bytes@),
        final(pending)@ == held_back(old(pending)@ + text::unicode::lossy(bytes@)),
        r.deep_view() == reported_of(
            old(pending)@ + text::unicode::lossy(bytes@),
            stage@,
            stream@,
        ),
        !final(pending)@.contains('\n'),
{
    let chunk = text::unicode::from_utf8_lossy(bytes);
    collected.append(chunk.as_str());
    take_output(pending, chunk.as_str(), stage, stream)
}

/// The chunks of a stream one after the other.
pub open spec fn whole(chunks: Seq<Seq<char>>) -> Seq<char>
    decreases chunks.len(),
{
    if chunks.len() == 0 {
        Seq::empty()
    } else {
        whole(chunks.drop_last()) + chunks.last()
    }
}

/// What is held back after the chunks of a stream.
pub open spec fn pending_after(chunks: Seq<Seq<char>>) -> Seq<char>
    decreases chunks.len(),
{
    if chunks.len() == 0 {
        Seq::empty()
    } else {
        held_back(pending_after(chunks.drop_last()) + chunks.last())
    }
}

/// What is reported with the chunks of a stream.
pub open spec fn streamed(chunks: Seq<Seq<char>>, stage: Seq<char>, stream: Seq<char>) -> Seq<
    events::BootstrapEventView,
>
    decreases chunks.len(),
{
    if chunks.len() == 0 {
        Seq::empty()
    } else {
        streamed(chunks.drop_last(), stage, stream) + reported_of(
            pending_after(chunks.drop_last()) + chunks.last(),
            stage,
            stream,
        )
    }
}

proof fn lemma_stream_log_of_parts(
    first: Seq<Seq<char>>,
    second: Seq<Seq<char>>,
    stage: Seq<char>,
    stream: Seq<char>,
)
    ensures
        stream_log(first + second, stage, stream) == stream_log(first, stage, stream) + stream_log(
            second,
            stage,
            stream,
        ),
    decreases second.len(),
{
    let all = first + second;
    if second.len() == 0 {
        assert(all =~= first);
        assert(stream_log(all, stage, stream) =~= stream_log(first, stage, stream) + stream_log(
            second,
            stage,
            stream,
        ));
    } else {
        lemma_stream_log_of_parts(first, second.drop_last(), stage, stream);
        assert(all.drop_last() =~= first + second.drop_last());
        assert(all.last() == second.last());
        assert(stream_log(all, stage, stream) =~= stream_log(first, stage, stream) + stream_log(
            second,
            stage,
            stream,
        ));
    }
}

proof fn lemma_streamed(chunks: Seq<Seq<char>>, stage: Seq<char>, stream: Seq<char>) -> (done: Seq<
    char,
>)
    ensures
        whole(chunks) == done + pending_after(chunks),
        done.len() == 0 || done.last() == '\n',
        streamed(chunks, stage, stream) == stream_log(text::scan::lines(done), stage, stream),
    decreases chunks.len(),
{
    if chunks.len() == 0 {
        assert(whole(chunks) =~= Seq::<char>::empty() + pending_after(chunks));
        Seq::empty()
    } else {
        let before = lemma_streamed(chunks.drop_last(), stage, stream);
        let all = pending_after(chunks.drop_last()) + chunks.last();
        let n = text::scan::end_of_last_line(all);
        text::scan::lemma_end_of_last_line(all);
        let new = all.take(n);
        let done = before + new;
        text::scan::lines_of_parts(before, new);
        lemma_stream_log_of_parts(
            text::scan::lines(before),
            text::scan::lines(new),
            stage,
            stream,
        );
        assert(whole(chunks) =~= done + pending_after(chunks));
        if new.len() > 0 {
            assert(done.last() == all[n - 1]);
        } else {
            assert(done =~= before);
        }
        done
    }
}

/// However a stream is cut into chunks, each of its lines is reported once and
/// in order: what is reported with the chunks, and then what is left at the end,
/// is the log of the whole stream.
pub proof fn streaming_reports_every_line_once(
    chunks: Seq<Seq<char>>,
    stage: Seq<char>,
    stream: Seq<char>,
)
    ensures
        streamed(chunks, stage, stream) + stream_log(
            text::scan::lines(pending_after(chunks)),
            stage,
            stream,
        ) == stream_log(text::scan::lines(whole(chunks)), stage, stream),
{
    let done = lemma_streamed(chunks, stage, stream);
    text::scan::lines_of_parts(done, pending_after(chunks));
    lemma_stream_log_of_parts(
        text::scan::lines(done),
        text::scan::lines(pending_after(chunks)),
        stage,
        stream,
    );
}

/// No whole line waits for what follows it: after every chunk, all that is held
/// back is a line that is not at its end.
pub proof fn no_whole_line_is_held_back(chunks: Seq<Seq<char>>)
    ensures
        !pending_after(chunks).contains('\n'),
{
    if chunks.len() > 0 {
        text::scan::lemma_end_of_last_line(pending_after(chunks.drop_last()) + chunks.last());
    }
}

/// Whether `decode`, given the text `line`, answered `answer`.
pub open spec fn decodes<T, F: Fn(&str) -> Option<T>>(
    decode: F,
    line: Seq<char>,
    answer: Option<T>,
) -> bool {
    exists|p: &str| p@ == line && #[trigger] call_ensures(decode, (p,), answer)
}

/// Whether `frame` is what the last line that `decode` understands says: blank
/// lines are passed over, and each line is trimmed.
pub open spec fn last_frame<T, F: Fn(&str) -> Option<T>>(
    decode: F,
    lines: Seq<Seq<char>>,
    frame: Option<T>,
) -> bool {
    match frame {
        Some(value) => exists|i: int|
            {
                &&& 0 <= i < lines.len()
                &&& !text::is_blank(#[trigger] lines[i])
                &&& decodes(decode, text::trimmed(lines[i]), Some(value))
                &&& forall|j: int|
                    i < j < lines.len() && !text::is_blank(#[trigger] lines[j]) ==> decodes(
                        decode,
                        text::trimmed(lines[j]),
                        None,
                    )
            },
        None => forall|j: int|
            0 <= j < lines.len() && !text::is_blank(#[trigger] lines[j]) ==> decodes(
                decode,
                text::trimmed(lines[j]),
                None,
            ),
    }
}

fn find_last_frame<T, F: Fn(&str) -> Option<T>>(stdout: &str, decode: &F) -> (r: Option<T>)
    requires
        forall|p: &str| call_requires(*decode, (p,)),
    ensures
        last_frame(*decode, text::scan::lines(stdout@), r),
{
    let lines = text::scan::split_lines(stdout);
    let ghost all = lines.deep_view();
    let mut i: usize = lines.len();
    while i > 0
        invariant
            i <= lines@.len(),
            all == lines.deep_view(),
            all == text::scan::lines(stdout@),
            forall|p: &str| call_requires(*decode, (p,)),
            forall|j: int|
                i <= j < all.len() && !text::is_blank(#[trigger] all[j]) ==> decodes(
                    *decode,
                    text::trimmed(all[j]),
                    None,
                ),
        decreases i,
    {
        i = i - 1;
        let line = text::trim(lines[i].as_str());
        proof {
            assert(all[i as int] == lines@[i as int]@);
        }
        if !text::is_empty(line.as_str()) {
            let shown = line.as_str();
            let answer = decode(shown);
            proof {
                assert(call_ensures(*decode, (shown,), answer));
                assert(decodes(*decode, text::trimmed(all[i as int]), answer));
            }
            if answer.is_some() {
                return answer;
            }
        }
    }
    None
}

/// Parse the result frame of a stage: the last line that carries one. `decode`
/// reads one line of JSON.
pub fn parse_stage_result<F: Fn(&str) -> Option<StageResult>>(stdout: &str, decode: &F) -> (r:
    Option<StageResult>)
    requires
        forall|p: &str| call_requires(*decode, (p,)),
    ensures
        last_frame(*decode, text::scan::lines(stdout@), r),
{
    find_last_frame(stdout, decode)
}

/// Parse the manifest: the last line that carries one, since banner lines may
/// come first. `decode` reads one line of JSON.
pub fn parse_manifest_payload<F: Fn(&str) -> Option<ManifestPayload>>(
    stdout: &str,
    decode: &F,
) -> (r: Option<ManifestPayload>)
    requires
        forall|p: &str| call_requires(*decode, (p,)),
    ensures
        last_frame(*decode, text::scan::lines(stdout@), r),
{
    find_last_frame(stdout, decode)
}

/// What came of running the installer.
#[derive(Debug, Clone, PartialEq, Eq)]
pub enum InstallerRun {
    /// It ended, with this output and this exit code, if it has one.
    Ended { stdout: String, stderr: String, code: Option<i32> },
    /// It could not be run.
    Failed { error: String },
}

/// An exit code as the failure report shows it.
pub open spec fn shown_code(code: Option<i32>) -> Seq<char> {
    match code {
        None => "None"@,
        Some(n) => "Some("@ + (if n < 0 {
            "-"@ + text::number::decimal((-(n as int)) as nat)
        } else {
            text::number::decimal(n as nat)
        }) + ")"@,
    }
}

fn show_code(code: Option<i32>) -> (r: String)
    ensures
        r@ == shown_code(code),
{
    match code {
        None => "None".to_owned(),
        Some(n) => {
            let wide: i64 = n as i64;
            let digits = if wide < 0 {
                let magnitude = text::number::write_decimal((-wide) as u64);
                text::cat("-", magnitude.as_str())
            } else {
                text::number::write_decimal(wide as u64)
            };
            text::cat3("Some(", digits.as_str(), ")")
        },
    }
}

/// The failure of an installer that ended badly when asked for its manifest.
pub open spec fn manifest_failed(code: Option<i32>, stdout: Seq<char>, stderr: Seq<char>) -> Seq<
    char,
> {
    "installer --manifest failed: exit "@ + shown_code(code) + "\n"@ + (if stderr.len() == 0 {
        stdout
    } else {
        stderr
    })
}

/// The failure of an installer that printed no manifest.
pub open spec fn no_manifest(stdout: Seq<char>) -> Seq<char> {
    "installer --manifest produced no parseable JSON payload\n"@ + stdout
}

/// What the run of an installer that was asked for its manifest came to, given
/// the manifest that its output carries.
pub open spec fn manifest_result(
    run: InstallerRun,
    parsed: Option<events::ManifestView>,
) -> Result<events::ManifestView, Seq<char>> {
    match run {
        InstallerRun::Failed { error } => Err(error@),
        InstallerRun::Ended { stdout, stderr, code } => if code != Some(0i32) {
            Err(manifest_failed(code, stdout@, stderr@))
        } else {
            match parsed {
                Some(manifest) => Ok(manifest),
                None => Err(no_manifest(stdout@)),
            }
        },
    }
}

/// A result by what its value and its error say.
pub open spec fn seen<T: DeepView>(result: Result<T, String>) -> Result<T::V, Seq<char>> {
    match result {
        Ok(value) => Ok(value.deep_view()),
        Err(error) => Err(error@),
    }
}

/// The manifest that the run of an installer came to.
pub fn read_manifest<F: Fn(&str) -> Option<ManifestPayload>>(run: &InstallerRun, decode: &F) -> (r:
    Result<ManifestPayload, String>)
    requires
        forall|p: &str| call_requires(*decode, (p,)),
    ensures
        exists|parsed: Option<ManifestPayload>|
            {
                &&& (*run matches InstallerRun::Ended { stdout, code, .. } && code == Some(
                    0i32,
                )) ==> last_frame(*decode, text::scan::lines(run->stdout@), parsed)
                &&& seen(r) == #[trigger] manifest_result(*run, parsed.deep_view())
            },
{
    match run {
        InstallerRun::Failed { error } => {
            let r = Err(error.clone());
            proof {
                let parsed: Option<ManifestPayload> = None;
                assert(seen(r) == manifest_result(*run, parsed.deep_view()));
            }
            r
        },
        InstallerRun::Ended { stdout, stderr, code } => {
            let ended_well = match code {
                Some(n) => *n == 0,
                None => false,
            };
            if !ended_well {
                let shown = show_code(*code);
                let detail = if text::is_empty(stderr.as_str()) {
                    stdout.as_str()
                } else {
                    stderr.as_str()
                };
                let r = Err(
                    text::cat4("installer --manifest failed: exit ", shown.as_str(), "\n", detail),
                );
                proof {
                    let parsed: Option<ManifestPayload> = None;
                    assert(seen(r) == manifest_result(*run, parsed.deep_view()));
                }
                return r;
            }
            let parsed = parse_manifest_payload(stdout.as_str(), decode);
            let ghost found = parsed;
            let r = match parsed {
                Some(manifest) => Ok(manifest),
                None => Err(
                    text::cat(
                        "installer --manifest produced no parseable JSON payload\n",
                        stdout.as_str(),
                    ),
                ),
            };
            proof {
                assert(seen(r) == manifest_result(*run, found.deep_view()));
            }
            r
        },
    }
}

/// The event that announces that a stage runs.
pub open spec fn stage_running(name: Seq<char>) -> events::BootstrapEventView {
    events::BootstrapEventView::Stage {
        name,
        state: "running"@,
        duration_ms: None,
        json: None,
        error: None,
    }
}

/// The state that a stage reports.
pub open spec fn reported_state(result: events::StageResultView) -> Seq<char> {
    if result.ok && result.skipped == Some(true) {
        "skipped"@
    } else if result.ok {
        "succeeded"@
    } else {
        "failed"@
    }
}

/// The event that ends a stage, given the result frame that its output carries.
/// A stage that could not be run, or printed no frame, failed; otherwise its
/// frame decides, whatever the exit code.
pub open spec fn stage_ended(
    name: Seq<char>,
    run: InstallerRun,
    parsed: Option<events::StageResultView>,
    duration_ms: u64,
) -> events::BootstrapEventView {
    match run {
        InstallerRun::Failed { error } => events::BootstrapEventView::Stage {
            name,
            state: "failed"@,
            duration_ms: Some(duration_ms),
            json: None,
            error: Some(error@),
        },
        InstallerRun::Ended { .. } => match parsed {
            None => events::BootstrapEventView::Stage {
                name,
                state: "failed"@,
                duration_ms: Some(duration_ms),
                json: None,
                error: Some(
                    "installer --stage "@ + name + " produced no JSON result frame"@,
                ),
            },
            Some(result) => events::BootstrapEventView::Stage {
                name,
                state: reported_state(result),
                duration_ms: Some(duration_ms),
                json: Some(result),
                error: if result.ok {
                    None
                } else {
                    Some(
                        match result.reason {
                            Some(reason) => reason,
                            None => "unknown error"@,
                        },
                    )
                },
            },
        },
    }
}

/// The event that announces that a stage runs.
pub fn stage_running_event(stage: &StageDescriptor) -> (r: BootstrapEvent)
    ensures
        r.deep_view() == stage_running(stage.name@),
{
    BootstrapEvent::Stage {
        name: stage.name.clone(),
        state: "running".to_owned(),
        duration_ms: None,
        json: None,
        error: None,
    }
}

/// The event that ends a stage.
pub fn stage_event<F: Fn(&str) -> Option<StageResult>>(
    stage: &StageDescriptor,
    run: &InstallerRun,
    duration_ms: u64,
    decode: &F,
) -> (r: BootstrapEvent)
    requires
        forall|p: &str| call_requires(*decode, (p,)),
    ensures
        exists|parsed: Option<StageResult>|
            {
                &&& *run is Ended ==> last_frame(*decode, text::scan::lines(run->stdout@), parsed)
                &&& r.deep_view() == #[trigger] stage_ended(
                    stage.name@,
                    *run,
                    parsed.deep_view(),
                    duration_ms,
                )
            },
{
    match run {
        InstallerRun::Failed { .. } => ended_stage(stage, run, None, duration_ms),
        InstallerRun::Ended { stdout, .. } => {
            let parsed = parse_stage_result(stdout.as_str(), decode);
            ended_stage(stage, run, parsed, duration_ms)
        },
    }
}

/// The event that ends a stage, given the result frame that its output carries.
pub fn ended_stage(
    stage: &StageDescriptor,
    run: &InstallerRun,
    parsed: Option<StageResult>,
    duration_ms: u64,
) -> (r: BootstrapEvent)
    ensures
        r.deep_view() == stage_ended(stage.name@, *run, parsed.deep_view(), duration_ms),
{
    match run {
        InstallerRun::Failed { error } => BootstrapEvent::Stage {
            name: stage.name.clone(),
            state: "failed".to_owned(),
            duration_ms: Some(duration_ms),
            json: None,
            error: Some(error.clone()),
        },
        InstallerRun::Ended { .. } => match parsed {
            None => BootstrapEvent::Stage {
                name: stage.name.clone(),
                state: "failed".to_owned(),
                duration_ms: Some(duration_ms),
                json: None,
                error: Some(
                    text::cat3(
                        "installer --stage ",
                        stage.name.as_str(),
                        " produced no JSON result frame",
                    ),
                ),
            },
            Some(result) => {
                let skipped = match result.skipped {
                    Some(flag) => flag,
                    None => false,
                };
                let state = if result.ok && skipped {
                    "skipped"
                } else if result.ok {
                    "succeeded"
                } else {
                    "failed"
                };
                let error = if result.ok {
                    None
                } else {
                    match &result.reason {
                        Some(reason) => Some(reason.clone()),
                        None => Some("unknown error".to_owned()),
                    }
                };
                BootstrapEvent::Stage {
                    name: stage.name.clone(),
                    state: state.to_owned(),
                    duration_ms: Some(duration_ms),
                    json: Some(result),
                    error,
                }
            },
        },
    }
}

/// A stage is reported as failed exactly where an error is reported with it.
pub proof fn a_stage_fails_with_a_reason(
    name: Seq<char>,
    run: InstallerRun,
    parsed: Option<events::StageResultView>,
    duration_ms: u64,
)
    ensures
        stage_ended(name, run, parsed, duration_ms) matches events::BootstrapEventView::Stage {
            name: reported,
            state,
            error,
            ..
        } && reported == name && (error is Some <==> state == "failed"@),
{
    reveal_strlit("failed");
    reveal_strlit("skipped");
    reveal_strlit("succeeded");
    assert("failed"@.len() != "skipped"@.len());
    assert("failed"@.len() != "succeeded"@.len());
}

// ---------------------------------------------------------------------------
// Laws
// ---------------------------------------------------------------------------
/// The installer of a source checkout outranks everything, a cached one outranks a
/// download, and without a ref there is none. What is fetched is the platform's
/// script of the stamp's ref, and it is kept in the cache of the Hermes home under
/// the key of that ref.
pub proof fn the_nearest_installer_is_used(
    stamp: Option<events::InstallStampView>,
    root: Option<Seq<char>>,
    hermes_home: Seq<char>,
    is_windows: bool,
    local: bool,
    cached: bool,
)
    ensures
        ({
            let step = script_step(stamp, root, hermes_home, is_windows, local, cached).0;
            let found = pin::install_ref(stamp);
            let name = if is_windows {
                "install.ps1"@
            } else {
                "install.sh"@
            };
            &&& step is Use <==> (root is Some && local) || (found is Some && cached)
            &&& step is Download <==> !(root is Some && local) && found is Some && !cached
            &&& step is Fail <==> !(root is Some && local) && found is None
            &&& root is Some && local ==> step == (ScriptStepView::Use {
                path: script_in(root->0, is_windows),
            })
            &&& !(root is Some && local) && step is Use ==> step == (ScriptStepView::Use {
                path: cached_path(hermes_home, found->0.cache_key, is_windows),
            })
            &&& step matches ScriptStepView::Download { url, dest } ==> dest == cached_path(
                hermes_home,
                found->0.cache_key,
                is_windows,
            ) && url == "https://raw.githubusercontent.com/NousResearch/hermes-agent/"@
                + found->0.ref_name + "/scripts/"@ + name
        }),
{
}

/// Where the installers are: in `scripts` of a checkout, in `scripts` of the
/// installed agent, and in `bootstrap-cache` below the Hermes home under the key of
/// the ref, always with the extension of the platform.
pub proof fn installers_are_kept_by_their_key(
    dir: Seq<char>,
    key: Seq<char>,
    is_windows: bool,
)
    requires
        paths::is_folder(dir, is_windows),
        paths::is_name(key),
    ensures
        ({
            let sep = if is_windows {
                "\\"@
            } else {
                "/"@
            };
            let name = if is_windows {
                "install.ps1"@
            } else {
                "install.sh"@
            };
            let ext = if is_windows {
                "ps1"@
            } else {
                "sh"@
            };
            &&& script_in(dir, is_windows) == dir + sep + "scripts"@ + sep + name
            &&& installed_script(dir, is_windows) == dir + sep + "hermes-agent"@ + sep
                + "scripts"@ + sep + name
            &&& cached_path(dir, key, is_windows) == dir + sep + "bootstrap-cache"@ + sep + (
            "install-"@ + key + "."@ + ext)
        }),
{
    reveal_strlit("scripts");
    reveal_strlit("install.ps1");
    reveal_strlit("install.sh");
    reveal_strlit("hermes-agent");
    reveal_strlit("bootstrap-cache");
    reveal_strlit("install-");
    reveal_strlit(".");
    reveal_strlit("ps1");
    reveal_strlit("sh");
    let w = is_windows;
    paths::a_name_goes_below_its_folder(dir, "scripts"@, w);
    paths::a_name_goes_below_its_folder(
        paths::joined(dir, "scripts"@, w),
        script_name(w),
        w,
    );
    paths::a_name_goes_below_its_folder(dir, "hermes-agent"@, w);
    let agent = paths::joined(dir, "hermes-agent"@, w);
    paths::a_name_goes_below_its_folder(agent, "scripts"@, w);
    paths::a_name_goes_below_its_folder(
        paths::joined(agent, "scripts"@, w),
        script_name(w),
        w,
    );
    paths::a_name_goes_below_its_folder(dir, "bootstrap-cache"@, w);
    let file = "install-"@ + key + "."@ + script_ext(w);
    assert forall|i: int| 0 <= i < file.len() implies file[i] != '/' && file[i] != '\\' && file[i]
        != ':' by {
        if 8 <= i < 8 + key.len() {
            assert(file[i] == key[i - 8]);
            assert(key.contains(key[i - 8]));
        }
    }
    paths::a_name_goes_below_its_folder(paths::joined(dir, "bootstrap-cache"@, w), file, w);
}

/// A downloaded installer is the one that is used. Where the download failed, the
/// one of an installed agent is, and where there is none the failure stands.
pub proof fn a_failed_download_falls_back_to_the_installed_agent(
    dest: Seq<char>,
    error: Seq<char>,
    hermes_home: Seq<char>,
    is_windows: bool,
    installed: bool,
)
    ensures
        script_after_download(dest, None, hermes_home, is_windows, installed).0 == (
        ScriptStepView::Use { path: dest }),
        script_after_download(dest, Some(error), hermes_home, is_windows, true).0 == (
        ScriptStepView::Use { path: installed_script(hermes_home, is_windows) }),
        script_after_download(dest, Some(error), hermes_home, is_windows, false).0 == (
        ScriptStepView::Fail { error }),
{
}

/// A ref is shown by its beginning: all of it where it takes no more than twelve
/// bytes, and else no more than reaches them.
pub proof fn a_ref_is_shown_by_its_beginning(ref_name: Seq<char>)
    ensures
        short_ref(ref_name).is_prefix_of(ref_name),
        text::bytes::byte_len(ref_name) <= 12 ==> short_ref(ref_name) == ref_name,
        text::bytes::byte_len(ref_name) > 12 ==> text::bytes::byte_len(short_ref(ref_name)) >= 12,
        short_ref(ref_name).len() > 0 ==> text::bytes::byte_len(short_ref(ref_name).drop_last())
            < 12,
{
    lemma_short_end(ref_name, 0);
    let n = short_end(ref_name, 0);
    if n == ref_name.len() {
        assert(ref_name.take(n) =~= ref_name);
    } else if text::bytes::byte_len(ref_name) <= 12 {
        lemma_byte_len_grows(ref_name, n);
    }
    if n > 0 {
        assert(short_ref(ref_name).drop_last() =~= ref_name.take(n - 1));
    }
}

proof fn lemma_byte_len_grows(s: Seq<char>, i: int)
    requires
        0 <= i < s.len(),
    ensures
        text::bytes::byte_len(s.take(i)) < text::bytes::byte_len(s),
    decreases s.len() - i,
{
    let front = s.drop_last();
    if i < front.len() {
        lemma_byte_len_grows(front, i);
        assert(front.take(i) =~= s.take(i));
    } else {
        assert(front =~= s.take(i));
    }
}

proof fn lemma_short_end(ref_name: Seq<char>, i: int)
    requires
        0 <= i <= ref_name.len(),
        forall|j: int| 0 <= j < i ==> text::bytes::byte_len(#[trigger] ref_name.take(j)) < 12,
    ensures
        i <= short_end(ref_name, i) <= ref_name.len(),
        forall|j: int|
            0 <= j < short_end(ref_name, i) ==> text::bytes::byte_len(#[trigger] ref_name.take(j))
                < 12,
        short_end(ref_name, i) < ref_name.len() ==> text::bytes::byte_len(
            ref_name.take(short_end(ref_name, i)),
        ) >= 12,
    decreases ref_name.len() - i,
{
    if i < ref_name.len() && text::bytes::byte_len(ref_name.take(i)) < 12 {
        lemma_short_end(ref_name, i + 1);
    }
}

/// The installer is started with the interpreter of its platform, by its path and
/// with its arguments behind it, in the Hermes home.
pub proof fn an_installer_is_called_with_its_arguments(
    script: Seq<char>,
    args: Seq<Seq<char>>,
    hermes_home: Seq<char>,
)
    ensures
        installer_call(script, args, hermes_home, false) == (InstallerPlanView {
            program: "bash"@,
            args: seq![script] + args,
            hermes_home,
        }),
        installer_call(script, args, hermes_home, true) == (InstallerPlanView {
            program: "powershell.exe"@,
            args: seq!["-NoProfile"@, "-ExecutionPolicy"@, "Bypass"@, "-File"@, script] + args,
            hermes_home,
        }),
{
}

/// A stage is asked for by its name, without questions and with a result in JSON,
/// and the manifest is asked for; either way what is installed and where follows.
pub proof fn a_stage_is_asked_for_by_its_name(target: InstallTargetView, stage: Seq<char>)
    ensures
        ({
            let rest = if target.is_windows {
                pin::pin_args(target.stamp, target.pin_commit)
            } else {
                pin::posix_args(
                    target.stamp,
                    target.active_root,
                    target.hermes_home,
                    target.pin_commit,
                )
            };
            &&& target.is_windows ==> target.stage_args(stage) == seq![
                "-Stage"@,
                stage,
                "-NonInteractive"@,
                "-Json"@,
            ] + rest
            &&& !target.is_windows ==> target.stage_args(stage) == seq![
                "--stage"@,
                stage,
                "--non-interactive"@,
                "--json"@,
            ] + rest
            &&& target.is_windows ==> target.manifest_args() == seq!["-Manifest"@] + rest
            &&& !target.is_windows ==> target.manifest_args() == seq!["--manifest"@] + rest
        }),
{
}

/// The lines that a log holds.
pub open spec fn logged_lines(log: Seq<events::BootstrapEventView>) -> Seq<Seq<char>> {
    log.map_values(|event: events::BootstrapEventView| event->line)
}

/// A stream is logged line by line: every line that holds a character is one event
/// under the name of its stage and stream, in order, and nothing else is logged.
pub proof fn every_line_that_holds_a_character_is_logged(
    lines: Seq<Seq<char>>,
    stage: Seq<char>,
    stream: Seq<char>,
)
    ensures
        logged_lines(stream_log(lines, stage, stream)) == lines.filter(
            |line: Seq<char>| line.len() > 0,
        ),
        forall|i: int|
            0 <= i < stream_log(lines, stage, stream).len() ==> {
                let event = #[trigger] stream_log(lines, stage, stream)[i];
                event is Log && event->Log_stage == Some(stage) && event->stream == Some(stream)
            },
    decreases lines.len(),
{
    let holds = |line: Seq<char>| line.len() > 0;
    reveal(Seq::filter);
    if lines.len() == 0 {
        assert(logged_lines(stream_log(lines, stage, stream)) =~= lines.filter(holds));
    } else {
        let rest = lines.drop_last();
        every_line_that_holds_a_character_is_logged(rest, stage, stream);
        let log = stream_log(lines, stage, stream);
        let before = stream_log(rest, stage, stream);
        if lines.last().len() > 0 {
            assert(logged_lines(log) =~= logged_lines(before).push(lines.last()));
            assert(lines.filter(holds) =~= rest.filter(holds).push(lines.last()));
        } else {
            assert(lines.filter(holds) =~= rest.filter(holds));
        }
    }
}

/// The last line that is a frame decides: a line that surely is one is passed over
/// only for a later one, and what decides is a line of the output, trimmed.
pub proof fn the_last_frame_decides<T, F: Fn(&str) -> Option<T>>(
    decode: F,
    lines: Seq<Seq<char>>,
    frame: Option<T>,
    i: int,
)
    requires
        last_frame(decode, lines, frame),
        0 <= i < lines.len(),
        !text::is_blank(lines[i]),
        !decodes(decode, text::trimmed(lines[i]), None),
    ensures
        frame is Some,
        exists|k: int|
            i <= k < lines.len() && decodes(decode, text::trimmed(#[trigger] lines[k]), frame),
{
    if frame is None {
        assert(decodes(decode, text::trimmed(lines[i]), None));
    } else {
        let k = choose|k: int|
            {
                &&& 0 <= k < lines.len()
                &&& !text::is_blank(#[trigger] lines[k])
                &&& decodes(decode, text::trimmed(lines[k]), frame)
                &&& forall|j: int|
                    k < j < lines.len() && !text::is_blank(#[trigger] lines[j]) ==> decodes(
                        decode,
                        text::trimmed(lines[j]),
                        None,
                    )
            };
        if k < i {
            assert(decodes(decode, text::trimmed(lines[i]), None));
        }
    }
}

/// A manifest comes from an installer that ended with code 0 and printed one, and
/// from no other. The failure of any other says what it ended with, and shows its
/// errors, or its output where it reported none.
pub proof fn only_a_good_exit_brings_a_manifest(
    run: InstallerRun,
    parsed: Option<events::ManifestView>,
)
    ensures
        ({
            let result = manifest_result(run, parsed);
            &&& result is Ok <==> run is Ended && run->code == Some(0i32) && parsed is Some
            &&& result is Ok ==> result->Ok_0 == parsed->0
            &&& run matches InstallerRun::Failed { error } ==> result == Err::<
                events::ManifestView,
                Seq<char>,
            >(error@)
            &&& run is Ended && run->code != Some(0i32) && run->stderr@.len() > 0
                ==> result->Err_0 == "installer --manifest failed: exit "@ + shown_code(run->code)
                + "\n"@ + run->stderr@
            &&& run is Ended && run->code != Some(0i32) && run->stderr@.len() == 0
                ==> result->Err_0 == "installer --manifest failed: exit "@ + shown_code(run->code)
                + "\n"@ + run->stdout@
            &&& run is Ended && run->code == Some(0i32) && parsed is None ==> result->Err_0
                == "installer --manifest produced no parseable JSON payload\n"@ + run->stdout@
        }),
        shown_code(None) == "None"@,
        forall|n: i32|
            n >= 0 ==> #[trigger] shown_code(Some(n)) == "Some("@ + text::number::decimal(n as nat)
                + ")"@,
        forall|n: i32|
            n < 0 ==> #[trigger] shown_code(Some(n)) == "Some("@ + ("-"@ + text::number::decimal(
                (-(n as int)) as nat,
            )) + ")"@,
{
}

/// How a stage ended is what its frame says: skipped or done where it is good,
/// failed where it is not, for the reason that it gives. A stage that could not be
/// run, or printed no frame, failed, and says so.
pub proof fn a_stage_ends_as_its_frame_says(
    name: Seq<char>,
    run: InstallerRun,
    parsed: Option<events::StageResultView>,
    duration_ms: u64,
)
    ensures
        ({
            let event = stage_ended(name, run, parsed, duration_ms);
            let framed = run is Ended && parsed is Some;
            let good = framed && parsed->0.ok;
            let skipped = good && parsed->0.skipped == Some(true);
            &&& event is Stage
            &&& event->name == name
            &&& event->duration_ms == Some(duration_ms)
            &&& skipped ==> event->state == "skipped"@
            &&& good && !skipped ==> event->state == "succeeded"@
            &&& !good ==> event->state == "failed"@
            &&& event->json == if framed {
                parsed
            } else {
                None
            }
            &&& good ==> event->Stage_error is None
            &&& framed && !good ==> event->Stage_error == Some(
                match parsed->0.reason {
                    Some(reason) => reason,
                    None => "unknown error"@,
                },
            )
            &&& run is Failed ==> event->Stage_error == Some(run->error@)
            &&& run is Ended && parsed is None ==> event->Stage_error == Some(
                "installer --stage "@ + name + " produced no JSON result frame"@,
            )
        }),
{
}

/// The log says which installer is used: the local one by its path, and any other
/// by the beginning of its ref, with a remark where that is no real commit.
pub proof fn the_choice_of_the_installer_is_logged(
    stamp: Option<events::InstallStampView>,
    root: Option<Seq<char>>,
    hermes_home: Seq<char>,
    is_windows: bool,
    local: bool,
    cached: bool,
)
    ensures
        ({
            let (step, log) = script_step(stamp, root, hermes_home, is_windows, local, cached);
            let found = pin::install_ref(stamp);
            let name = if is_windows {
                "install.ps1"@
            } else {
                "install.sh"@
            };
            let remark = if found is Some && !found->0.pinned {
                " (fallback, unpinned)"@
            } else {
                ""@
            };
            let short = short_ref(found->0.ref_name);
            &&& step is Fail ==> log.len() == 0
            &&& step matches ScriptStepView::Fail { error } ==> error == "Cannot resolve "@ + name
                + ": no source checkout and no install stamp. This packaged build was produced without a valid build-time stamp."@
            &&& !(step is Fail) ==> log.len() == 1 && log[0] is Log && log[0]->Log_stage is None
                && log[0]->stream == Some("stdout"@)
            &&& root is Some && local ==> log[0]->line == "[bootstrap] using local "@ + name
                + " at "@ + script_in(root->0, is_windows)
            &&& !(root is Some && local) && step is Use ==> log[0]->line
                == "[bootstrap] using cached "@ + name + " for "@ + short + remark
            &&& step is Download ==> log[0]->line == "[bootstrap] fetching "@ + name + " for "@
                + short + " from GitHub"@ + remark
        }),
{
}

// ---------------------------------------------------------------------------
// Laws of the operations themselves
// ---------------------------------------------------------------------------
/// The installer of a source checkout is used wherever it is there, whatever the
/// stamp says; and without one the cached installer of the stamp's ref, and a
/// download of it where that is missing.
pub proof fn the_installer_is_looked_for_nearest_first<F: Fn(&str) -> bool>(
    stamp: Option<&InstallStamp>,
    root: Option<&str>,
    hermes_home: &str,
    is_windows: bool,
    is_file: F,
    r: (ScriptStep, Vec<BootstrapEvent>),
)
    requires
        call_ensures(
            resolve_install_script::<F>,
            (stamp, root, hermes_home, is_windows, &is_file),
            r,
        ),
    ensures
        ({
            let found = pin::install_ref(stamp.deep_view());
            let kept = cached_path(hermes_home@, found->0.cache_key, is_windows);
            &&& root is Some && !probe::says(is_file, script_in(root->0@, is_windows), false)
                ==> r.0 is Use && r.0->path@ == script_in(root->0@, is_windows)
            &&& root is None && found is None ==> r.0 is Fail
            &&& root is None && found is Some && !probe::says(is_file, kept, false) ==> r.0 is Use
                && r.0->path@ == kept
            &&& root is None && found is Some && !probe::says(is_file, kept, true)
                ==> r.0 is Download && r.0->dest@ == kept
        }),
{
    assert(None::<&str>.deep_view() is None);
}

/// Output comes out as it went in: what is collected is all of it, and what is held
/// back is its last line as far as it is in.
pub proof fn collected_output_is_all_of_it(bytes: &[u8], stage: &str, stream: &str, chunk: &str)
    ensures
        forall|collected: &mut String, pending: &mut String, r: Vec<BootstrapEvent>| #[trigger]
            call_ensures(collect_output, (collected, pending, bytes, stage, stream), r) ==> {
                &&& final(collected)@ == collected@ + text::unicode::lossy(bytes@)
                &&& final(pending)@.is_suffix_of(pending@ + text::unicode::lossy(bytes@))
                &&& !final(pending)@.contains('\n')
            },
        forall|pending: &mut String, r: Vec<BootstrapEvent>| #[trigger]
            call_ensures(take_output, (pending, chunk, stage, stream), r) ==> {
                &&& final(pending)@.is_suffix_of(pending@ + chunk@)
                &&& !final(pending)@.contains('\n')
                &&& !chunk@.contains('\n') && !pending@.contains('\n') ==> final(pending)@
                    == pending@ + chunk@ && r@.len() == 0
            },
{
    assert forall|all: Seq<char>| #[trigger] held_back(all).is_suffix_of(all) by {
        text::scan::lemma_end_of_last_line(all);
    }
    assert forall|pending: &mut String, r: Vec<BootstrapEvent>| #[trigger]
        call_ensures(take_output, (pending, chunk, stage, stream), r) && !chunk@.contains('\n')
            && !pending@.contains('\n') implies final(pending)@ == pending@ + chunk@ && r@.len()
        == 0 by {
        let all = pending@ + chunk@;
        text::scan::lemma_end_of_last_line(all);
        let n = text::scan::end_of_last_line(all);
        if n > 0 {
            if n - 1 < pending@.len() {
                assert(pending@[n - 1] == all[n - 1]);
            } else {
                assert(chunk@[n - 1 - pending@.len()] == all[n - 1]);
            }
        }
        assert(n == 0);
        assert(all.skip(0) =~= all);
        assert(all.take(0) =~= Seq::<char>::empty());
        assert(r.deep_view().len() == r@.len());
    }
}

/// The log says what became of a download: where it was saved, or why it failed and
/// which installer stands in for it.
pub proof fn the_end_of_a_download_is_logged(
    dest: Seq<char>,
    error: Seq<char>,
    hermes_home: Seq<char>,
    is_windows: bool,
    installed: bool,
)
    ensures
        ({
            let name = if is_windows {
                "install.ps1"@
            } else {
                "install.sh"@
            };
            let saved = script_after_download(dest, None, hermes_home, is_windows, installed).1;
            let failed = script_after_download(
                dest,
                Some(error),
                hermes_home,
                is_windows,
                installed,
            ).1;
            &&& saved.len() == 1 && saved[0] is Log
            &&& saved[0]->line == "[bootstrap] saved to "@ + dest
            &&& !installed ==> failed.len() == 0
            &&& installed ==> failed.len() == 1 && failed[0] is Log && failed[0]->line
                == "[bootstrap] GitHub fetch failed ("@ + error
                + "); falling back to installed agent "@ + name + " at "@ + installed_script(
                hermes_home,
                is_windows,
            )
        }),
{
}

} // verus!
