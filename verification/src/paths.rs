//! Profile-aware Hermes paths.
//!
//! An explicit `HERMES_HOME` override wins, otherwise the platform default.
//! Nothing here hardcodes an install location: the desktop shell must work with
//! a Hermes tree living wherever the user, or the installer, put it.
//!
//! A path is text, and the platform is data: what separates components, and what
//! makes a path absolute, depends on `is_windows` alone.
use crate::text;
use vstd::prelude::*;

verus! {

/// What the paths depend on: the platform, the user's home directory and the
/// environment variables that are consulted.
#[derive(Debug, Clone, PartialEq, Eq)]
pub struct Host {
    pub is_windows: bool,
    /// The user's home directory (see `home_dir`).
    pub home: String,
    /// `HERMES_HOME`.
    pub hermes_home: Option<String>,
    /// `LOCALAPPDATA`.
    pub local_appdata: Option<String>,
    /// `HERMES_VENV`.
    pub hermes_venv: Option<String>,
}

// ---------------------------------------------------------------------------
// Joining
// ---------------------------------------------------------------------------
/// Whether `c` separates path components.
pub open spec fn is_separator(c: char, is_windows: bool) -> bool {
    c == '/' || (is_windows && c == '\\')
}

/// The separator that is written.
pub open spec fn separator(is_windows: bool) -> char {
    if is_windows {
        '\\'
    } else {
        '/'
    }
}

/// Whether `path` begins with a drive letter.
pub open spec fn has_drive(path: Seq<char>) -> bool {
    path.len() >= 2 && path[1] == ':' && text::unicode::is_ascii_letter(path[0])
}

/// Whether `path` begins at a root.
pub open spec fn is_rooted(path: Seq<char>, is_windows: bool) -> bool {
    path.len() > 0 && is_separator(path[0], is_windows)
}

/// Whether a Windows path is verbatim: it begins with `\\?\`, and behind that
/// only backslashes separate.
pub open spec fn is_verbatim(path: Seq<char>) -> bool {
    path.len() >= 4 && path[0] == '\\' && path[1] == '\\' && path[2] == '?' && path[3] == '\\'
}

/// Where the component that begins at position `i` of a Windows path ends.
pub open spec fn component_end(path: Seq<char>, i: int, verbatim: bool) -> int
    decreases path.len() - i,
{
    if i >= path.len() {
        path.len() as int
    } else if path[i] == '\\' || (!verbatim && path[i] == '/') {
        i
    } else {
        component_end(path, i + 1, verbatim)
    }
}

/// Where the share ends whose server begins at position `i` of a Windows path.
/// Where no share is named, that is the end of the server.
pub open spec fn share_end(path: Seq<char>, i: int, verbatim: bool) -> int {
    let server_end = component_end(path, i, verbatim);
    let end = component_end(path, server_end + 1, verbatim);
    if server_end + 1 < end {
        end
    } else {
        server_end
    }
}

/// The length of the prefix of a Windows path, or 0 where it has none. There are
/// six kinds:
///
/// - a drive, as in `C:`;
/// - a share, as in `\\server\share`;
/// - a device, as in `\\.\COM1`;
/// - a verbatim drive, as in `\\?\C:`;
/// - a verbatim share, as in `\\?\UNC\server\share`;
/// - any other verbatim prefix, as in `\\?\name`.
pub open spec fn prefix_len(path: Seq<char>) -> int {
    if !(path.len() >= 2 && is_separator(path[0], true) && is_separator(path[1], true)) {
        if has_drive(path) {
            2
        } else {
            0
        }
    } else if is_verbatim(path) {
        if path.len() >= 8 && path[4] == 'U' && path[5] == 'N' && path[6] == 'C' && is_separator(
            path[7],
            true,
        ) {
            share_end(path, 8, true)
        } else if has_drive(path.skip(4)) && (path.len() == 6 || is_separator(path[6], true)) {
            6
        } else {
            component_end(path, 4, true)
        }
    } else if path.len() >= 4 && path[2] == '.' && is_separator(path[3], true) {
        component_end(path, 4, false)
    } else if 2 < component_end(path, 2, false) < share_end(path, 2, false) {
        share_end(path, 2, false)
    } else {
        0
    }
}

/// The components of a Windows path from position `i` on.
pub open spec fn components(path: Seq<char>, i: int, verbatim: bool) -> Seq<Seq<char>>
    decreases path.len() + 1 - i,
{
    if i >= path.len() {
        Seq::empty()
    } else {
        proof {
            lemma_component_end(path, i, verbatim);
        }
        let end = component_end(path, i, verbatim);
        let rest = components(path, end + 1, verbatim);
        if i < end {
            seq![path.subrange(i, end)] + rest
        } else {
            rest
        }
    }
}

/// Where the components of a verbatim path begin.
pub open spec fn behind_root(path: Seq<char>) -> int {
    let n = prefix_len(path);
    if n < path.len() && is_separator(path[n], true) {
        n + 1
    } else {
        n
    }
}

/// Where `parts` lead from `folders`: `.` stays, and `..` leaves a folder.
pub open spec fn walked(folders: Seq<Seq<char>>, parts: Seq<Seq<char>>) -> Seq<Seq<char>>
    decreases parts.len(),
{
    if parts.len() == 0 {
        folders
    } else {
        let before = walked(folders, parts.drop_last());
        let part = parts.last();
        if part == "."@ {
            before
        } else if part == ".."@ {
            if before.len() > 0 && before.last() != "."@ && before.last() != ".."@ {
                before.drop_last()
            } else {
                before
            }
        } else {
            before.push(part)
        }
    }
}

/// The verbatim path with this prefix and these folders.
pub open spec fn verbatim_path(prefix: Seq<char>, rooted: bool, folders: Seq<Seq<char>>) -> Seq<
    char,
> {
    if rooted || folders.len() > 0 {
        prefix + "\\"@ + text::scan::join(folders, "\\"@)
    } else {
        prefix
    }
}

/// The path of a part without a prefix seen from a verbatim base. Nothing resolves
/// `.` and `..` in a verbatim path, so that those of the part are resolved here.
pub open spec fn joined_verbatim(base: Seq<char>, part: Seq<char>) -> Seq<char> {
    let n = prefix_len(base);
    let start = behind_root(base);
    verbatim_path(
        base.take(n),
        n < start || is_rooted(part, true),
        walked(
            if is_rooted(part, true) {
                Seq::empty()
            } else {
                components(base, start, true)
            },
            components(part, 0, false),
        ),
    )
}

/// The path of `part` seen from `base`. A rooted part stands for itself, and any
/// other part follows the base behind one separator. No separator is written after
/// an empty base or after one that ends in a separator.
///
/// On Windows a part with a prefix stands for itself, a rooted part keeps the
/// prefix of the base, no separator is written after a bare drive, and a verbatim
/// base is written anew.
pub open spec fn joined(base: Seq<char>, part: Seq<char>, is_windows: bool) -> Seq<char> {
    if is_windows && prefix_len(part) > 0 {
        part
    } else if is_windows && is_verbatim(base) && part.len() > 0 {
        joined_verbatim(base, part)
    } else if is_rooted(part, is_windows) {
        if is_windows {
            base.take(prefix_len(base)) + part
        } else {
            part
        }
    } else if base.len() == 0 || is_separator(base.last(), is_windows) || (is_windows && has_drive(
        base,
    ) && base.len() == 2) {
        base + part
    } else {
        base + seq![separator(is_windows)] + part
    }
}

/// A component ends in its path, and holds no separator.
pub proof fn lemma_component_end(path: Seq<char>, i: int, verbatim: bool)
    ensures
        component_end(path, i, verbatim) <= path.len(),
        i <= path.len() ==> i <= component_end(path, i, verbatim),
        forall|j: int|
            i <= j < component_end(path, i, verbatim) ==> !is_separator(
                #[trigger] path[j],
                true,
            ) || (verbatim && path[j] == '/'),
    decreases path.len() - i,
{
    if i < path.len() && !(path[i] == '\\' || (!verbatim && path[i] == '/')) {
        lemma_component_end(path, i + 1, verbatim);
    }
}

/// A prefix is a part of its path.
pub proof fn lemma_prefix_len(path: Seq<char>)
    ensures
        0 <= prefix_len(path) <= path.len(),
{
    lemma_component_end(path, 2, false);
    lemma_component_end(path, 4, false);
    lemma_component_end(path, 4, true);
    lemma_component_end(path, 8, true);
    lemma_component_end(path, component_end(path, 2, false) + 1, false);
    lemma_component_end(path, component_end(path, 8, true) + 1, true);
}

/// On Windows a part without a prefix never leads off the drive or share of the
/// base: the joined path begins with the prefix of the base.
pub proof fn joining_keeps_the_prefix(base: Seq<char>, part: Seq<char>)
    requires
        prefix_len(part) == 0,
    ensures
        ({
            let n = prefix_len(base);
            let path = joined(base, part, true);
            n <= path.len() && path.take(n) == base.take(n)
        }),
{
    lemma_prefix_len(base);
    let n = prefix_len(base);
    assert(joined(base, part, true).take(n) =~= base.take(n));
}

/// The path of `part` seen from `base`.
pub fn join(base: &str, part: &str, is_windows: bool) -> (r: String)
    ensures
        r@ == joined(base@, part@, is_windows),
{
    let b = text::chars_of(base);
    let p = text::chars_of(part);
    if is_windows && prefix_length(&p) > 0 {
        return part.to_owned();
    }
    if is_windows && verbatim(&b) && p.len() > 0 {
        return join_verbatim(&b, &p);
    }
    if p.len() > 0 && separates(p[0], is_windows) {
        if is_windows {
            let n: usize = prefix_length(&b);
            let prefix = text::substring(&b, 0, n);
            proof {
                assert(b@.subrange(0, n as int) =~= base@.take(prefix_len(base@)));
            }
            return text::cat(prefix.as_str(), part);
        }
        return part.to_owned();
    }
    if b.len() == 0 || separates(b[b.len() - 1], is_windows) || (is_windows && drive(&b, 0)
        && b.len() == 2) {
        proof {
            assert(b@.skip(0) =~= b@);
        }
        return text::cat(base, part);
    }
    let mut out = base.to_owned();
    out.push(
        if is_windows {
            '\\'
        } else {
            '/'
        },
    );
    out.append(part);
    proof {
        assert(b@.skip(0) =~= b@);
        assert(base@.push(separator(is_windows)) =~= base@ + seq![separator(is_windows)]);
    }
    out
}

fn separates(c: char, is_windows: bool) -> (r: bool)
    ensures
        r == is_separator(c, is_windows),
{
    c == '/' || (is_windows && c == '\\')
}

fn drive(path: &Vec<char>, at: usize) -> (r: bool)
    requires
        at <= path@.len(),
    ensures
        r == has_drive(path@.skip(at as int)),
{
    path.len() - at >= 2 && path[at + 1] == ':' && (('a' <= path[at] && path[at] <= 'z') || ('A'
        <= path[at] && path[at] <= 'Z'))
}

fn verbatim(path: &Vec<char>) -> (r: bool)
    ensures
        r == is_verbatim(path@),
{
    path.len() >= 4 && path[0] == '\\' && path[1] == '\\' && path[2] == '?' && path[3] == '\\'
}

fn find_component_end(path: &Vec<char>, from: usize, verbatim: bool) -> (r: usize)
    ensures
        r == component_end(path@, from as int, verbatim),
{
    let mut i: usize = from;
    while i < path.len()
        invariant
            component_end(path@, from as int, verbatim) == component_end(path@, i as int, verbatim),
        decreases path@.len() - i,
    {
        if path[i] == '\\' || (!verbatim && path[i] == '/') {
            return i;
        }
        i = i + 1;
    }
    path.len()
}

fn find_share_end(path: &Vec<char>, from: usize, verbatim: bool) -> (r: usize)
    ensures
        r == share_end(path@, from as int, verbatim),
{
    let server_end: usize = find_component_end(path, from, verbatim);
    proof {
        lemma_component_end(path@, from as int, verbatim);
    }
    if server_end >= path.len() {
        return server_end;
    }
    let end: usize = find_component_end(path, server_end + 1, verbatim);
    if server_end + 1 < end {
        end
    } else {
        server_end
    }
}

fn prefix_length(path: &Vec<char>) -> (r: usize)
    ensures
        r == prefix_len(path@),
        r <= path@.len(),
{
    proof {
        lemma_prefix_len(path@);
        assert(path@.skip(0) =~= path@);
    }
    if !(path.len() >= 2 && separates(path[0], true) && separates(path[1], true)) {
        if drive(path, 0) {
            2
        } else {
            0
        }
    } else if verbatim(path) {
        if path.len() >= 8 && path[4] == 'U' && path[5] == 'N' && path[6] == 'C' && separates(
            path[7],
            true,
        ) {
            find_share_end(path, 8, true)
        } else if drive(path, 4) && (path.len() == 6 || separates(path[6], true)) {
            6
        } else {
            find_component_end(path, 4, true)
        }
    } else if path.len() >= 4 && path[2] == '.' && separates(path[3], true) {
        find_component_end(path, 4, false)
    } else {
        let server_end: usize = find_component_end(path, 2, false);
        let end: usize = find_share_end(path, 2, false);
        if 2 < server_end && server_end < end {
            end
        } else {
            0
        }
    }
}

fn push_components(out: &mut Vec<String>, path: &Vec<char>, from: usize, verbatim: bool)
    ensures
        final(out).deep_view() == old(out).deep_view() + components(path@, from as int, verbatim),
{
    let ghost before = out.deep_view();
    let mut i: usize = from;
    while i < path.len()
        invariant
            before == old(out).deep_view(),
            before + components(path@, from as int, verbatim) == out.deep_view() + components(
                path@,
                i as int,
                verbatim,
            ),
        decreases path@.len() - i,
    {
        let end: usize = find_component_end(path, i, verbatim);
        proof {
            lemma_component_end(path@, i as int, verbatim);
        }
        if i < end {
            let ghost taken = out.deep_view();
            out.push(text::substring(path, i, end));
            proof {
                let piece = path@.subrange(i as int, end as int);
                assert(out.deep_view() =~= taken.push(piece));
                assert(taken + components(path@, i as int, verbatim) =~= out.deep_view()
                    + components(path@, end + 1, verbatim));
            }
        }
        if end >= path.len() {
            proof {
                assert(out.deep_view() + components(path@, end + 1, verbatim) =~= out.deep_view());
            }
            return ;
        }
        i = end + 1;
    }
    proof {
        assert(out.deep_view() + components(path@, i as int, verbatim) =~= out.deep_view());
    }
}

fn walk(folders: Vec<String>, parts: &Vec<String>) -> (r: Vec<String>)
    ensures
        r.deep_view() == walked(folders.deep_view(), parts.deep_view()),
{
    let ghost first = folders.deep_view();
    let mut out = folders;
    let mut i: usize = 0;
    proof {
        assert(parts.deep_view().take(0).len() == 0);
    }
    while i < parts.len()
        invariant
            i <= parts@.len(),
            out.deep_view() == walked(first, parts.deep_view().take(i as int)),
        decreases parts@.len() - i,
    {
        let ghost before = out.deep_view();
        proof {
            assert(parts.deep_view().take(i + 1).drop_last() =~= parts.deep_view().take(i as int));
            assert(parts.deep_view().take(i + 1).last() == parts@[i as int]@);
        }
        let part = parts[i].as_str();
        if text::str_eq(part, ".") {
        } else if text::str_eq(part, "..") {
            let n: usize = out.len();
            if n > 0 && !text::str_eq(out[n - 1].as_str(), ".") && !text::str_eq(
                out[n - 1].as_str(),
                "..",
            ) {
                let _ = out.pop();
                proof {
                    assert(out.deep_view() =~= before.drop_last());
                }
            }
        } else {
            out.push(part.to_owned());
            proof {
                assert(out.deep_view() =~= before.push(part@));
            }
        }
        i = i + 1;
    }
    proof {
        assert(parts.deep_view().take(i as int) =~= parts.deep_view());
    }
    out
}

fn join_verbatim(base: &Vec<char>, part: &Vec<char>) -> (r: String)
    ensures
        r@ == joined_verbatim(base@, part@),
{
    let n: usize = prefix_length(base);
    let start: usize = if n < base.len() && separates(base[n], true) {
        n + 1
    } else {
        n
    };
    let from_root = part.len() > 0 && separates(part[0], true);
    let mut folders: Vec<String> = Vec::new();
    let mut parts: Vec<String> = Vec::new();
    let ghost none = folders.deep_view();
    if !from_root {
        push_components(&mut folders, base, start, true);
    }
    push_components(&mut parts, part, 0, false);
    proof {
        assert(none =~= Seq::empty());
        assert(none + components(base@, start as int, true) =~= components(
            base@,
            start as int,
            true,
        ));
        assert(none + components(part@, 0, false) =~= components(part@, 0, false));
        assert(base@.subrange(0, n as int) =~= base@.take(n as int));
    }
    let folders = walk(folders, &parts);
    let prefix = text::substring(base, 0, n);
    if n < start || from_root || folders.len() > 0 {
        let path = text::scan::join_text(&folders, "\\");
        text::cat3(prefix.as_str(), "\\", path.as_str())
    } else {
        prefix
    }
}

// ---------------------------------------------------------------------------
// The Hermes tree
// ---------------------------------------------------------------------------
/// The platform's default home: `%LOCALAPPDATA%\hermes` on Windows, or
/// `~\AppData\Local\hermes` where the variable says nothing; `~/.hermes`
/// everywhere else.
pub open spec fn default_home(
    home: Seq<char>,
    local_appdata: Option<Seq<char>>,
    is_windows: bool,
) -> Seq<char> {
    if is_windows {
        let base = match text::non_blank(local_appdata) {
            Some(dir) => dir,
            None => joined(joined(home, "AppData"@, is_windows), "Local"@, is_windows),
        };
        joined(base, "hermes"@, is_windows)
    } else {
        joined(home, ".hermes"@, is_windows)
    }
}

/// The platform's default home, with the host as data.
pub fn platform_default_hermes_home_for(
    home: &str,
    local_appdata: Option<&str>,
    is_windows: bool,
) -> (r: String)
    ensures
        r@ == default_home(home@, local_appdata.deep_view(), is_windows),
{
    if is_windows {
        let base = match text::trim_option(local_appdata) {
            Some(dir) => dir,
            None => join(join(home, "AppData", is_windows).as_str(), "Local", is_windows),
        };
        join(base.as_str(), "hermes", is_windows)
    } else {
        join(home, ".hermes", is_windows)
    }
}

/// The home directory that the platform reports, or the current directory where
/// it reports none.
pub fn home_dir(reported: Option<&str>) -> (r: String)
    ensures
        r@ == (match reported {
            Some(dir) => dir@,
            None => "."@,
        }),
{
    match reported {
        Some(dir) => dir.to_owned(),
        None => ".".to_owned(),
    }
}

impl Host {
    /// Root of the user's Hermes state.
    pub open spec fn hermes_home_path(&self) -> Seq<char> {
        match text::non_blank(self.hermes_home.deep_view()) {
            Some(dir) => dir,
            None => self.default_home_path(),
        }
    }

    /// The root where nothing overrides it.
    pub open spec fn default_home_path(&self) -> Seq<char> {
        default_home(self.home@, self.local_appdata.deep_view(), self.is_windows)
    }

    /// A path below the root.
    pub open spec fn below_home(&self, part: Seq<char>) -> Seq<char> {
        joined(self.hermes_home_path(), part, self.is_windows)
    }

    /// The virtual environment of the runtime.
    pub open spec fn venv_path(&self) -> Seq<char> {
        match self.hermes_venv {
            Some(dir) => dir@,
            None => self.below_home("venv"@),
        }
    }

    /// The directory of the runtime's programs.
    pub open spec fn venv_bin_path(&self) -> Seq<char> {
        joined(
            self.venv_path(),
            if self.is_windows {
                "Scripts"@
            } else {
                "bin"@
            },
            self.is_windows,
        )
    }

    /// The Hermes-managed Node directories.
    pub open spec fn node_paths(&self) -> Seq<Seq<char>> {
        let root = self.below_home("node"@);
        let bin = joined(root, "bin"@, self.is_windows);
        if self.is_windows {
            seq![root, bin]
        } else {
            seq![bin, root]
        }
    }
}

/// Root of the user's Hermes state: `config.yaml`, `.env`, `logs/`, `venv/`.
pub fn hermes_home(host: &Host) -> (r: String)
    ensures
        r@ == host.hermes_home_path(),
{
    match text::trim_option(text::borrowed(&host.hermes_home)) {
        Some(dir) => dir,
        None => platform_default_hermes_home(host),
    }
}

/// The root where nothing overrides it.
pub fn platform_default_hermes_home(host: &Host) -> (r: String)
    ensures
        r@ == host.default_home_path(),
{
    platform_default_hermes_home_for(
        host.home.as_str(),
        text::borrowed(&host.local_appdata),
        host.is_windows,
    )
}

/// Where the logs are.
pub fn logs_dir(host: &Host) -> (r: String)
    ensures
        r@ == host.below_home("logs"@),
{
    join(hermes_home(host).as_str(), "logs", host.is_windows)
}

/// The desktop shell's own log.
pub fn desktop_log_path(host: &Host) -> (r: String)
    ensures
        r@ == joined(host.below_home("logs"@), "desktop.log"@, host.is_windows),
{
    join(logs_dir(host).as_str(), "desktop.log", host.is_windows)
}

/// The virtual environment of the runtime.
pub fn venv_root(host: &Host) -> (r: String)
    ensures
        r@ == host.venv_path(),
{
    match &host.hermes_venv {
        Some(dir) => dir.clone(),
        None => join(hermes_home(host).as_str(), "venv", host.is_windows),
    }
}

/// `<venv>/bin` on POSIX, `<venv>/Scripts` on Windows.
pub fn venv_bin_dir(host: &Host) -> (r: String)
    ensures
        r@ == host.venv_bin_path(),
{
    let root = venv_root(host);
    if host.is_windows {
        join(root.as_str(), "Scripts", true)
    } else {
        join(root.as_str(), "bin", false)
    }
}

/// Hermes-managed Node directories, leading with the layout native to the
/// platform. Both are emitted so that migrated installs resolve.
pub fn hermes_node_path_entries(host: &Host) -> (r: Vec<String>)
    ensures
        r.deep_view() == host.node_paths(),
{
    let root = join(hermes_home(host).as_str(), "node", host.is_windows);
    let bin = join(root.as_str(), "bin", host.is_windows);
    let mut out: Vec<String> = Vec::new();
    if host.is_windows {
        out.push(root);
        out.push(bin);
    } else {
        out.push(bin);
        out.push(root);
    }
    proof {
        assert(out.deep_view() =~= host.node_paths());
    }
    out
}

/// The directories that a POSIX application launched from a dock misses.
pub const POSIX_SANE_PATH_ENTRIES: [&'static str; 8] = [
    "/opt/homebrew/bin",
    "/opt/homebrew/sbin",
    "/usr/local/sbin",
    "/usr/local/bin",
    "/usr/sbin",
    "/usr/bin",
    "/sbin",
    "/bin",
];

/// An explicit home wins: whatever else the host says, the Hermes tree is where
/// the override puts it.
pub proof fn an_explicit_home_wins(first: Host, second: Host)
    requires
        first.hermes_home.deep_view() == second.hermes_home.deep_view(),
        text::non_blank(first.hermes_home.deep_view()) is Some,
    ensures
        first.hermes_home_path() == second.hermes_home_path(),
        first.hermes_home_path() == text::trimmed(first.hermes_home->0@),
{
}

// ---------------------------------------------------------------------------
// Laws
// ---------------------------------------------------------------------------
/// Whether `dir` is a folder as one is usually written: it does not end in a
/// separator, is no bare drive and, on Windows, does not begin as a verbatim path
/// does.
pub open spec fn is_folder(dir: Seq<char>, is_windows: bool) -> bool {
    &&& dir.len() > 0
    &&& dir.last() != '/'
    &&& is_windows ==> {
        &&& dir.last() != '\\'
        &&& !(dir.len() == 2 && dir[1] == ':')
        &&& dir[0] == '\\' ==> dir.len() >= 4 && dir[2] != '?'
    }
}

/// Whether `name` is the name of one file.
pub open spec fn is_name(name: Seq<char>) -> bool {
    &&& name.len() > 0
    &&& !name.contains('/')
    &&& !name.contains('\\')
    &&& !name.contains(':')
}

proof fn lemma_name(name: Seq<char>)
    requires
        is_name(name),
    ensures
        prefix_len(name) == 0,
        !is_rooted(name, true),
        !is_rooted(name, false),
        name.last() != '/',
        name.last() != '\\',
{
    assert(name.contains(name[0]));
    assert(name.contains(name.last()));
    if name.len() >= 2 {
        assert(name.contains(name[1]));
    }
}

/// A name goes below its folder behind one separator, a backslash on Windows and
/// a slash elsewhere, and what comes of it is a folder that takes names again.
pub proof fn a_name_goes_below_its_folder(dir: Seq<char>, name: Seq<char>, is_windows: bool)
    requires
        is_folder(dir, is_windows),
        is_name(name),
    ensures
        joined(dir, name, is_windows) == dir + (if is_windows {
            "\\"@
        } else {
            "/"@
        }) + name,
        is_folder(joined(dir, name, is_windows), is_windows),
{
    reveal_strlit("\\");
    reveal_strlit("/");
    lemma_name(name);
    let path = joined(dir, name, is_windows);
    assert("\\"@ =~= seq!['\\']);
    assert("/"@ =~= seq!['/']);
    assert(path.last() == name.last());
    assert(path[0] == dir[0]);
    if is_windows && dir[0] == '\\' {
        assert(path[2] == dir[2]);
    }
}

/// Off Windows a part that begins with a slash stands for itself, and any other
/// follows the base behind one slash: no second one is written where the base ends
/// in one, and none where there is no base.
pub proof fn posix_paths_join_at_one_slash(base: Seq<char>, part: Seq<char>)
    ensures
        part.len() > 0 && part[0] == '/' ==> joined(base, part, false) == part,
        !(part.len() > 0 && part[0] == '/') ==> joined(base, part, false) == if base.len() == 0
            || base.last() == '/' {
            base + part
        } else {
            base + "/"@ + part
        },
{
    reveal_strlit("/");
    assert("/"@ =~= seq!['/']);
}

/// On Windows a part on a drive of its own, on a share or on a device stands for
/// itself, whatever the base is.
pub proof fn a_part_with_a_prefix_stands_for_itself(
    base: Seq<char>,
    letter: char,
    server: Seq<char>,
    share: Seq<char>,
    rest: Seq<char>,
)
    requires
        'a' <= letter <= 'z' || 'A' <= letter <= 'Z',
        is_name(server),
        is_name(share),
        rest.len() > 0 ==> rest[0] == '\\',
        server != "?"@ && server != "."@,
    ensures
        ({
            let drive = seq![letter, ':'] + rest;
            joined(base, drive, true) == drive
        }),
        ({
            let unc = "\\\\"@ + server + "\\"@ + share + rest;
            joined(base, unc, true) == unc && prefix_len(unc) == 3 + server.len() + share.len()
        }),
        ({
            let verbatim = "\\\\?\\"@ + share + rest;
            joined(base, verbatim, true) == verbatim
        }),
        ({
            let device = "\\\\.\\"@ + share + rest;
            joined(base, device, true) == device
        }),
{
    reveal_strlit("\\\\");
    reveal_strlit("\\");
    reveal_strlit("?");
    reveal_strlit(".");
    reveal_strlit("\\\\?\\");
    reveal_strlit("\\\\.\\");
    let drive = seq![letter, ':'] + rest;
    assert(drive[0] == letter && drive[1] == ':');
    let unc = "\\\\"@ + server + "\\"@ + share + rest;
    let n = server.len() as int;
    assert forall|k: int| 2 <= k < 2 + n implies unc[k] != '\\' && unc[k] != '/' by {
        assert(unc[k] == server[k - 2]);
        assert(server.contains(server[k - 2]));
    }
    assert(unc[2 + n] == '\\');
    lemma_component_end_at(unc, 2, 2 + n, false);
    assert forall|k: int| 3 + n <= k < 3 + n + share.len() implies unc[k] != '\\' && unc[k] != '/' by {
        assert(unc[k] == share[k - 3 - n]);
        assert(share.contains(share[k - 3 - n]));
    }
    if rest.len() > 0 {
        assert(unc[3 + n + share.len()] == rest[0]);
    }
    lemma_component_end_at(unc, 3 + n, 3 + n + share.len(), false);
    assert(unc[2] == server[0]);
    assert(unc[3] == if n > 1 {
        server[1]
    } else {
        '\\'
    });
    if n > 1 {
        assert(server.contains(server[1]));
    } else {
        assert(server =~= seq![server[0]]);
        assert("?"@ =~= seq!['?']);
        assert("."@ =~= seq!['.']);
    }
    assert(prefix_len(unc) == 3 + n + share.len());
    let verbatim = "\\\\?\\"@ + share + rest;
    assert(is_verbatim(verbatim));
    lemma_component_end(verbatim, 4, true);
    lemma_component_end(verbatim, 8, true);
    lemma_component_end(verbatim, component_end(verbatim, 8, true) + 1, true);
    assert(prefix_len(verbatim) >= 4);
    let device = "\\\\.\\"@ + share + rest;
    assert(device[0] == '\\' && device[1] == '\\' && device[2] == '.' && device[3] == '\\');
    lemma_component_end(device, 4, false);
    assert(prefix_len(device) >= 4);
}

proof fn lemma_component_end_at(path: Seq<char>, i: int, end: int, verbatim: bool)
    requires
        0 <= i <= end <= path.len(),
        forall|k: int| i <= k < end ==> path[k] != '\\' && path[k] != '/',
        end < path.len() ==> path[end] == '\\',
    ensures
        component_end(path, i, verbatim) == end,
    decreases end - i,
{
    if i < end {
        lemma_component_end_at(path, i + 1, end, verbatim);
    }
}

/// On Windows a rooted part keeps the drive or share of its base and nothing else
/// of it, where the base is not verbatim.
pub proof fn a_rooted_part_stays_on_its_drive(base: Seq<char>, part: Seq<char>)
    requires
        part.len() > 0,
        part[0] == '\\' || part[0] == '/',
        prefix_len(part) == 0,
        !(base.len() >= 4 && base[2] == '?'),
    ensures
        ({
            let path = joined(base, part, true);
            let n = path.len() - part.len();
            &&& 0 <= n <= base.len()
            &&& path == base.take(n) + part
            &&& n == prefix_len(base)
        }),
{
    lemma_prefix_len(base);
    assert(joined(base, part, true) =~= base.take(prefix_len(base)) + part);
}

/// The Hermes tree is below the user's home: in `.hermes` off Windows, and on
/// Windows in `hermes` below `LOCALAPPDATA`, or below `AppData\Local` of the home
/// where that says nothing.
pub proof fn the_default_home_is_below_the_users_home(
    home: Seq<char>,
    local_appdata: Option<Seq<char>>,
)
    ensures
        is_folder(home, false) ==> default_home(home, local_appdata, false) == home + "/"@
            + ".hermes"@,
        text::non_blank(local_appdata) matches Some(dir) ==> is_folder(dir, true) ==> default_home(
            home,
            local_appdata,
            true,
        ) == dir + "\\"@ + "hermes"@,
        text::non_blank(local_appdata) is None && is_folder(home, true) ==> default_home(
            home,
            local_appdata,
            true,
        ) == home + "\\"@ + "AppData"@ + "\\"@ + "Local"@ + "\\"@ + "hermes"@,
{
    reveal_strlit(".hermes");
    reveal_strlit("hermes");
    reveal_strlit("AppData");
    reveal_strlit("Local");
    if is_folder(home, false) {
        a_name_goes_below_its_folder(home, ".hermes"@, false);
    }
    if let Some(dir) = text::non_blank(local_appdata) {
        if is_folder(dir, true) {
            a_name_goes_below_its_folder(dir, "hermes"@, true);
        }
    } else if is_folder(home, true) {
        a_name_goes_below_its_folder(home, "AppData"@, true);
        let data = joined(home, "AppData"@, true);
        a_name_goes_below_its_folder(data, "Local"@, true);
        let local = joined(data, "Local"@, true);
        a_name_goes_below_its_folder(local, "hermes"@, true);
    }
}

/// Where the parts of the Hermes tree are: below its root behind one separator,
/// the programs of the runtime in `bin` or on Windows in `Scripts`, and of the two
/// Node directories first the one that the platform has its programs in. An
/// explicit environment is taken as it is.
pub proof fn the_parts_of_the_tree_are_below_its_root(host: Host, part: Seq<char>)
    requires
        is_folder(host.hermes_home_path(), host.is_windows),
        is_name(part),
    ensures
        ({
            let root = host.hermes_home_path();
            let sep = if host.is_windows {
                "\\"@
            } else {
                "/"@
            };
            let bin = if host.is_windows {
                "Scripts"@
            } else {
                "bin"@
            };
            let node = root + sep + "node"@;
            &&& host.below_home(part) == root + sep + part
            &&& host.hermes_venv is None ==> host.venv_path() == root + sep + "venv"@
            &&& host.hermes_venv is None ==> host.venv_bin_path() == root + sep + "venv"@ + sep
                + bin
            &&& host.hermes_venv matches Some(dir) ==> host.venv_path() == dir@
            &&& host.hermes_venv matches Some(dir) ==> is_folder(dir@, host.is_windows)
                ==> host.venv_bin_path() == dir@ + sep + bin
            &&& host.is_windows ==> host.node_paths() == seq![node, node + sep + "bin"@]
            &&& !host.is_windows ==> host.node_paths() == seq![node + sep + "bin"@, node]
        }),
{
    reveal_strlit("venv");
    reveal_strlit("node");
    reveal_strlit("bin");
    reveal_strlit("Scripts");
    let w = host.is_windows;
    let root = host.hermes_home_path();
    let bin = if w {
        "Scripts"@
    } else {
        "bin"@
    };
    a_name_goes_below_its_folder(root, part, w);
    a_name_goes_below_its_folder(root, "venv"@, w);
    a_name_goes_below_its_folder(root, "node"@, w);
    a_name_goes_below_its_folder(joined(root, "node"@, w), "bin"@, w);
    if let Some(dir) = host.hermes_venv {
        if is_folder(dir@, w) {
            a_name_goes_below_its_folder(dir@, bin, w);
        }
    } else {
        a_name_goes_below_its_folder(joined(root, "venv"@, w), bin, w);
    }
}

/// A home that is not named, or is named by nothing but white space, is the
/// platform's default.
pub proof fn a_blank_home_is_the_default(host: Host)
    requires
        host.hermes_home is None || text::is_blank(host.hermes_home->0@),
    ensures
        host.hermes_home_path() == default_home(
            host.home@,
            host.local_appdata.deep_view(),
            host.is_windows,
        ),
{
}

// ---------------------------------------------------------------------------
// Laws of the operations themselves
// ---------------------------------------------------------------------------
/// The home is the one that the platform reports, and the working directory where
/// it reports none.
pub proof fn the_reported_home_is_the_home(reported: &str, r: String, none: String)
    requires
        call_ensures(home_dir, (Some(reported),), r),
        call_ensures(home_dir, (None::<&str>,), none),
    ensures
        r@ == reported@,
        none@ == "."@,
{
}

/// The shell's log is `desktop.log` in the directory of the logs, which is `logs`
/// of Hermes's home.
pub proof fn the_log_is_among_the_logs(host: Host, home: String, logs: String, log: String)
    requires
        call_ensures(hermes_home, (&host,), home),
        call_ensures(logs_dir, (&host,), logs),
        call_ensures(desktop_log_path, (&host,), log),
    ensures
        home@ == host.hermes_home_path(),
        is_folder(home@, host.is_windows) ==> ({
            let sep = if host.is_windows {
                "\\"@
            } else {
                "/"@
            };
            &&& logs@ == home@ + sep + "logs"@
            &&& log@ == home@ + sep + "logs"@ + sep + "desktop.log"@
        }),
{
    reveal_strlit("logs");
    reveal_strlit("desktop.log");
    reveal_strlit("\\");
    reveal_strlit("/");
    let w = host.is_windows;
    if is_folder(home@, w) {
        a_name_goes_below_its_folder(home@, "logs"@, w);
        assert(is_folder(logs@, w));
        a_name_goes_below_its_folder(logs@, "desktop.log"@, w);
    }
}

/// Walking part by part is walking all the way: a folder is entered by its name,
/// `.` stays where it is, `..` leaves the folder that was entered last, and what
/// comes out holds neither.
pub proof fn a_walk_enters_and_leaves_folders(
    folders: Seq<Seq<char>>,
    parts: Seq<Seq<char>>,
    name: Seq<char>,
)
    ensures
        walked(folders, Seq::empty()) == folders,
        walked(folders, parts.push("."@)) == walked(folders, parts),
        name != "."@ && name != ".."@ ==> {
            &&& walked(folders, parts.push(name)) == walked(folders, parts).push(name)
            &&& walked(folders, parts.push(name).push(".."@)) == walked(folders, parts)
        },
        walked(Seq::empty(), parts.push(".."@)).len() <= walked(Seq::empty(), parts).len(),
        forall|i: int|
            0 <= i < walked(Seq::empty(), parts).len() ==> {
                let folder = #[trigger] walked(Seq::empty(), parts)[i];
                folder != "."@ && folder != ".."@ && parts.contains(folder)
            },
    decreases parts.len(),
{
    reveal_strlit(".");
    reveal_strlit("..");
    assert("."@.len() != ".."@.len());
    assert(parts.push("."@).drop_last() =~= parts);
    assert(parts.push(".."@).drop_last() =~= parts);
    assert(parts.push(name).drop_last() =~= parts);
    assert(parts.push(name).push(".."@).drop_last() =~= parts.push(name));
    if name != "."@ && name != ".."@ {
        let entered = walked(folders, parts.push(name));
        assert(entered == walked(folders, parts).push(name));
        assert(entered.last() == name);
        assert(walked(folders, parts.push(name).push(".."@)) == entered.drop_last());
        assert(entered.drop_last() =~= walked(folders, parts));
    }
    if parts.len() > 0 {
        let front = parts.drop_last();
        a_walk_enters_and_leaves_folders(folders, front, name);
        assert forall|i: int| 0 <= i < walked(Seq::empty(), parts).len() implies {
            let folder = #[trigger] walked(Seq::empty(), parts)[i];
            folder != "."@ && folder != ".."@ && parts.contains(folder)
        } by {
            let before = walked(Seq::empty(), front);
            let folder = walked(Seq::empty(), parts)[i];
            if i < before.len() {
                assert(folder == before[i]);
                assert(front.contains(folder));
                let k = choose|k: int| 0 <= k < front.len() && front[k] == folder;
                assert(parts[k] == folder);
            } else {
                assert(parts[parts.len() - 1] == folder);
            }
        }
    }
}

/// A name goes below its folder on a verbatim path as well, `..` leads out of the
/// folder again, and a rooted part begins at the drive.
pub proof fn a_verbatim_path_is_written_out(letter: char, dir: Seq<char>, name: Seq<char>)
    requires
        'a' <= letter <= 'z' || 'A' <= letter <= 'Z',
        is_name(dir),
        dir != "."@ && dir != ".."@,
        is_name(name),
        name != "."@ && name != ".."@,
    ensures
        ({
            let drive = "\\\\?\\"@ + seq![letter, ':'];
            let base = drive + "\\"@ + dir;
            &&& joined(base, name, true) == base + "\\"@ + name
            &&& joined(base, ".."@, true) == drive + "\\"@
            &&& joined(base, "."@, true) == base
            &&& joined(base, "\\"@ + name, true) == drive + "\\"@ + name
        }),
{
    reveal_strlit("\\\\?\\");
    reveal_strlit("\\");
    reveal_strlit(".");
    reveal_strlit("..");
    assert("."@.len() != ".."@.len());
    let drive = "\\\\?\\"@ + seq![letter, ':'];
    let base = drive + "\\"@ + dir;
    assert(base.skip(4)[0] == letter && base.skip(4)[1] == ':');
    assert(prefix_len(base) == 6);
    assert(base.take(6) =~= drive);
    assert(behind_root(base) == 7);
    assert forall|j: int| 7 <= j < base.len() implies #[trigger] base[j] != '\\' && base[j]
        != '/' by {
        assert(dir.contains(dir[j - 7]));
    }
    lemma_component_end_at(base, 7, base.len() as int, true);
    assert(base.subrange(7, base.len() as int) =~= dir);
    assert(components(base, base.len() as int + 1, true) =~= Seq::<Seq<char>>::empty());
    assert(components(base, 7, true) =~= seq![dir]);
    lemma_one_part(name);
    lemma_one_part(".."@);
    lemma_one_part("."@);
    let none = Seq::<Seq<char>>::empty();
    let one = seq![dir];
    assert forall|part: Seq<char>|
        walked(one, #[trigger] seq![part]) == (if part == "."@ {
            one
        } else if part == ".."@ {
            none
        } else {
            seq![dir, part]
        }) && walked(none, seq![part]) == (if part == "."@ || part == ".."@ {
            none
        } else {
            seq![part]
        }) by {
        let parts = seq![part];
        assert(parts.drop_last() =~= none);
        assert(walked(one, none) == one);
        assert(walked(none, none) == none);
        assert(one.drop_last() =~= none);
        assert(one.push(part) =~= seq![dir, part]);
        assert(none.push(part) =~= seq![part]);
    }
    text::scan::joining_puts_a_separator_between(none, dir, "\\"@);
    text::scan::joining_puts_a_separator_between(none, name, "\\"@);
    text::scan::joining_puts_a_separator_between(one, name, "\\"@);
    assert(none.push(dir) =~= one);
    assert(none.push(name) =~= seq![name]);
    assert(one.push(name) =~= seq![dir, name]);
    assert(walked(one, seq![name]) == seq![dir, name]);
    assert(walked(one, seq![".."@]) == none);
    assert(walked(one, seq!["."@]) == one);
    assert(joined(base, name, true) =~= base + "\\"@ + name);
    assert(text::scan::join(none, "\\"@) =~= Seq::<char>::empty());
    assert(joined(base, ".."@, true) =~= drive + "\\"@);
    assert(joined(base, "."@, true) =~= base);
    let rooted = "\\"@ + name;
    lemma_name(name);
    assert(rooted[0] == '\\');
    assert(rooted[1] == name[0]);
    assert(name.contains(name[0]));
    assert(prefix_len(rooted) == 0);
    assert forall|j: int| 1 <= j < rooted.len() implies #[trigger] rooted[j] != '\\' && rooted[j]
        != '/' by {
        assert(name.contains(name[j - 1]));
    }
    lemma_component_end_at(rooted, 0, 0, false);
    lemma_component_end_at(rooted, 1, rooted.len() as int, false);
    assert(rooted.subrange(1, rooted.len() as int) =~= name);
    assert(components(rooted, rooted.len() as int + 1, false) =~= none);
    assert(components(rooted, 1, false) =~= seq![name]);
    assert(components(rooted, 0, false) =~= seq![name]);
    assert(walked(none, seq![name]) == seq![name]);
    assert(joined(base, rooted, true) =~= drive + "\\"@ + name);
}

proof fn lemma_one_part(part: Seq<char>)
    requires
        is_name(part) || part == "."@ || part == ".."@,
    ensures
        components(part, 0, false) == seq![part],
        prefix_len(part) == 0,
        !is_rooted(part, true),
        part.len() > 0,
{
    reveal_strlit(".");
    reveal_strlit("..");
    assert(is_name(part)) by {
        if part == "."@ || part == ".."@ {
            assert forall|c: char| part.contains(c) implies c == '.' by {}
        }
    }
    lemma_name(part);
    assert forall|j: int| 0 <= j < part.len() implies #[trigger] part[j] != '\\' && part[j]
        != '/' by {
        assert(part.contains(part[j]));
    }
    lemma_component_end_at(part, 0, part.len() as int, false);
    assert(part.subrange(0, part.len() as int) =~= part);
    assert(components(part, part.len() as int + 1, false) =~= Seq::<Seq<char>>::empty());
    assert(components(part, 0, false) =~= seq![part]);
    assert(part.contains(part[0]));
}

/// A server is no place by itself: without the name of a share behind it there is no
/// prefix.
pub proof fn a_share_is_named_behind_its_server(server: Seq<char>)
    requires
        is_name(server),
        server != "?"@ && server != "."@,
    ensures
        prefix_len("\\\\"@ + server) == 0,
        prefix_len("\\\\"@ + server + "\\"@) == 0,
        prefix_len("\\\\?\\UNC\\"@ + server) == 8 + server.len(),
        prefix_len("\\\\?\\UNC\\"@ + server + "\\"@) == 8 + server.len(),
{
    reveal_strlit("\\\\");
    reveal_strlit("\\");
    reveal_strlit("?");
    reveal_strlit(".");
    reveal_strlit("\\\\?\\UNC\\");
    let n = server.len() as int;
    assert forall|k: int| 0 <= k < n implies #[trigger] server[k] != '\\' && server[k] != '/' by {
        assert(server.contains(server[k]));
    }
    let bare = "\\\\"@ + server;
    let open = bare + "\\"@;
    let verbatim = "\\\\?\\UNC\\"@ + server;
    let verbatim_open = verbatim + "\\"@;
    if n == 1 {
        assert(server[0] != '.') by {
            if server[0] == '.' {
                assert(server =~= "."@);
            }
        }
        assert(server[0] != '?') by {
            if server[0] == '?' {
                assert(server =~= "?"@);
            }
        }
    }
    assert forall|k: int| 2 <= k < n + 2 implies bare[k] != '\\' && bare[k] != '/' && open[k] != '\\'
        && open[k] != '/' by {
        assert(bare[k] == server[k - 2] && open[k] == server[k - 2]);
    }
    assert forall|k: int| 8 <= k < n + 8 implies verbatim[k] != '\\' && verbatim[k] != '/'
        && verbatim_open[k] != '\\' && verbatim_open[k] != '/' by {
        assert(verbatim[k] == server[k - 8] && verbatim_open[k] == server[k - 8]);
    }
    lemma_component_end_at(bare, 2, n + 2, false);
    lemma_component_end_at(open, 2, n + 2, false);
    lemma_component_end_at(verbatim, 8, n + 8, true);
    lemma_component_end_at(verbatim_open, 8, n + 8, true);
}

} // verus!
