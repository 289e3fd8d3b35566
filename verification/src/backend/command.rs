//! Resolving the desktop-managed Hermes backend invocation.
//!
//! The shell launches its own headless backend via `hermes serve`; it never
//! depends on the browser `dashboard`. Managed installs that predate the `serve`
//! subcommand are reached through `dashboard --no-open`, which is the same
//! headless gateway under its older name.
use crate::paths;
use crate::paths::Host;
use crate::probe;
use crate::text;
use vstd::prelude::*;

verus! {

/// The program that is the backend, and its arguments.
#[derive(Debug, Clone, PartialEq, Eq)]
pub struct BackendCommand {
    pub program: String,
    pub args: Vec<String>,
}

/// The arguments that select a profile: none for the unnamed one.
pub open spec fn profile_args(profile: Option<Seq<char>>) -> Seq<Seq<char>> {
    match profile {
        Some(name) => if name.len() > 0 {
            seq!["--profile"@, name]
        } else {
            Seq::empty()
        },
        None => Seq::empty(),
    }
}

/// The canonical headless backend arguments.
pub open spec fn serve_args(profile: Option<Seq<char>>) -> Seq<Seq<char>> {
    profile_args(profile) + seq!["serve"@, "--host"@, "127.0.0.1"@, "--port"@, "0"@]
}

/// The same backend under its older name.
pub open spec fn dashboard_args(profile: Option<Seq<char>>) -> Seq<Seq<char>> {
    profile_args(profile) + seq![
        "dashboard"@,
        "--no-open"@,
        "--host"@,
        "127.0.0.1"@,
        "--port"@,
        "0"@,
    ]
}

/// The position of the `serve` subcommand at `i` or later, or the number of
/// arguments. The value of a `--profile` option is not a subcommand.
pub open spec fn serve_index(args: Seq<Seq<char>>, i: int) -> int
    decreases args.len() - i,
{
    if i < 0 || i >= args.len() {
        args.len() as int
    } else if args[i] == "serve"@ {
        i
    } else if args[i] == "--profile"@ && i + 1 < args.len() {
        serve_index(args, i + 2)
    } else {
        serve_index(args, i + 1)
    }
}

/// The arguments with the `serve` subcommand rewritten to its older form.
pub open spec fn fallback_args(args: Seq<Seq<char>>) -> Seq<Seq<char>> {
    let at = serve_index(args, 0);
    if at < args.len() {
        args.subrange(0, at) + seq!["dashboard"@, "--no-open"@] + args.subrange(
            at + 1,
            args.len() as int,
        )
    } else {
        args
    }
}

/// The canonical headless backend arguments (always `serve`).
pub fn serve_backend_args(profile: Option<&str>) -> (r: Vec<String>)
    ensures
        r.deep_view() == serve_args(profile.deep_view()),
{
    let mut args: Vec<String> = Vec::new();
    if let Some(name) = profile {
        if !text::is_empty(name) {
            args.push("--profile".to_owned());
            args.push(name.to_owned());
        }
    }
    proof {
        assert(args.deep_view() =~= profile_args(profile.deep_view()));
    }
    args.push("serve".to_owned());
    args.push("--host".to_owned());
    args.push("127.0.0.1".to_owned());
    args.push("--port".to_owned());
    args.push("0".to_owned());
    proof {
        assert(args.deep_view() =~= serve_args(profile.deep_view()));
    }
    args
}

/// Whether an argument list has the `serve` subcommand.
pub fn has_serve(args: &[String]) -> (r: bool)
    ensures
        r == (serve_index(args.deep_view(), 0) < args.deep_view().len()),
{
    serve_position(args) < args.len()
}

/// The position of the `serve` subcommand, or the number of arguments.
fn serve_position(args: &[String]) -> (at: usize)
    ensures
        at <= args@.len(),
        at == serve_index(args.deep_view(), 0),
{
    let ghost all = args.deep_view();
    let n: usize = args.len();
    let mut at: usize = 0;
    while at < n && !text::str_eq(args[at].as_str(), "serve")
        invariant
            at <= n == args@.len(),
            all == args.deep_view(),
            serve_index(all, 0) == serve_index(all, at as int),
        decreases n - at,
    {
        proof {
            assert(all[at as int] == args@[at as int]@);
        }
        if text::str_eq(args[at].as_str(), "--profile") && at + 1 < n {
            at = at + 2;
        } else {
            at = at + 1;
        }
    }
    at
}

/// Rewrite a resolved argument list from `serve` to the older
/// `dashboard --no-open` form, preserving every other argument (including any
/// `--profile <name>`). Without a `serve` subcommand the list is unchanged.
pub fn dashboard_fallback_args(args: &[String]) -> (r: Vec<String>)
    ensures
        r.deep_view() == fallback_args(args.deep_view()),
{
    let ghost all = args.deep_view();
    let n: usize = args.len();
    let at: usize = serve_position(args);
    let mut next: Vec<String> = Vec::new();
    let mut i: usize = 0;
    while i < n
        invariant
            at <= n == args@.len(),
            all == args.deep_view(),
            i <= n,
            next.deep_view() == if i <= at {
                all.subrange(0, i as int)
            } else {
                all.subrange(0, at as int) + seq!["dashboard"@, "--no-open"@] + all.subrange(
                    at + 1,
                    i as int,
                )
            },
        decreases n - i,
    {
        let ghost before = next.deep_view();
        if i == at {
            next.push("dashboard".to_owned());
            next.push("--no-open".to_owned());
            proof {
                assert(next.deep_view() =~= before + seq!["dashboard"@, "--no-open"@]);
                assert(all.subrange(at + 1, i + 1) =~= Seq::<Seq<char>>::empty());
                assert(next.deep_view() =~= all.subrange(0, at as int) + seq![
                    "dashboard"@,
                    "--no-open"@,
                ] + all.subrange(at + 1, i + 1));
            }
        } else {
            next.push(args[i].clone());
            proof {
                assert(all[i as int] == args@[i as int]@);
                assert(next.deep_view() =~= before.push(all[i as int]));
                if i < at {
                    assert(next.deep_view() =~= all.subrange(0, i + 1));
                } else {
                    assert(all.subrange(at + 1, i + 1) =~= all.subrange(at + 1, i as int).push(
                        all[i as int],
                    ));
                }
            }
        }
        i = i + 1;
    }
    proof {
        assert(all.subrange(0, n as int) =~= all);
    }
    next
}

/// The fallback asks for the same backend: whatever the profile, it is the
/// older command line with that profile.
pub proof fn fallback_keeps_the_profile(profile: Option<Seq<char>>)
    ensures
        fallback_args(serve_args(profile)) == dashboard_args(profile),
{
    reveal_strlit("--profile");
    reveal_strlit("serve");
    let args = serve_args(profile);
    let n = profile_args(profile).len() as int;
    assert("--profile"@[0] != "serve"@[0]);
    assert(args[n] == "serve"@);
    reveal_with_fuel(serve_index, 2);
    assert(serve_index(args, 0) == n);
    assert(fallback_args(args) =~= dashboard_args(profile));
}

/// A command line that was rewritten once, or never had the subcommand, is left
/// alone.
pub proof fn fallback_leaves_other_commands_alone(args: Seq<Seq<char>>)
    requires
        serve_index(args, 0) == args.len(),
    ensures
        fallback_args(args) == args,
{
}

// ---------------------------------------------------------------------------
// Finding the program
// ---------------------------------------------------------------------------
/// The managed runtime's programs, in order of preference.
pub open spec fn venv_programs(host: Host) -> Seq<Seq<char>> {
    let bin = host.venv_bin_path();
    if host.is_windows {
        seq![
            paths::joined(bin, "hermes.exe"@, true),
            paths::joined(bin, "hermes"@, true),
        ]
    } else {
        seq![paths::joined(bin, "hermes"@, false)]
    }
}

/// Where a search of the directories `dirs` looks for the program `name`, in
/// order: in each directory that is named at all, with the executable suffix
/// tried second on Windows.
pub open spec fn path_programs(dirs: Seq<Seq<char>>, name: Seq<char>, is_windows: bool) -> Seq<
    Seq<char>,
>
    decreases dirs.len(),
{
    if dirs.len() == 0 {
        Seq::empty()
    } else {
        let dir = dirs.last();
        let before = path_programs(dirs.drop_last(), name, is_windows);
        if dir.len() == 0 {
            before
        } else if is_windows {
            before + seq![
                paths::joined(dir, name, true),
                paths::joined(dir, name + ".exe"@, true),
            ]
        } else {
            before + seq![paths::joined(dir, name, false)]
        }
    }
}

/// The managed runtime's programs, in order of preference.
pub fn venv_candidates(host: &Host) -> (r: Vec<String>)
    ensures
        r.deep_view() == venv_programs(*host),
{
    let bin = paths::venv_bin_dir(host);
    let mut out: Vec<String> = Vec::new();
    if host.is_windows {
        out.push(paths::join(bin.as_str(), "hermes.exe", true));
        out.push(paths::join(bin.as_str(), "hermes", true));
    } else {
        out.push(paths::join(bin.as_str(), "hermes", false));
    }
    proof {
        assert(out.deep_view() =~= venv_programs(*host));
    }
    out
}

/// Where a search of the directories `dirs` looks for the program `name`.
pub fn path_candidates(dirs: &Vec<String>, name: &str, is_windows: bool) -> (r: Vec<String>)
    ensures
        r.deep_view() == path_programs(dirs.deep_view(), name@, is_windows),
{
    let ghost all = dirs.deep_view();
    let mut out: Vec<String> = Vec::new();
    let mut i: usize = 0;
    proof {
        assert(all.take(0) =~= Seq::<Seq<char>>::empty());
        assert(out.deep_view() =~= Seq::<Seq<char>>::empty());
    }
    while i < dirs.len()
        invariant
            i <= dirs@.len(),
            all == dirs.deep_view(),
            out.deep_view() == path_programs(all.take(i as int), name@, is_windows),
        decreases dirs@.len() - i,
    {
        let dir = dirs[i].as_str();
        let ghost before = out.deep_view();
        proof {
            assert(all[i as int] == dir@);
            assert(all.take(i + 1).drop_last() =~= all.take(i as int));
            assert(all.take(i + 1).last() == dir@);
        }
        if !text::is_empty(dir) {
            out.push(paths::join(dir, name, is_windows));
            if is_windows {
                let with_suffix = text::cat(name, ".exe");
                out.push(paths::join(dir, with_suffix.as_str(), true));
            }
        }
        proof {
            assert(out.deep_view() =~= path_programs(all.take(i + 1), name@, is_windows));
        }
        i = i + 1;
    }
    proof {
        assert(all.take(i as int) =~= all);
    }
    out
}

/// The first program `name` in the directories `dirs`.
pub fn which<F: Fn(&str) -> bool>(
    name: &str,
    dirs: &Vec<String>,
    is_windows: bool,
    is_file: &F,
) -> (r: Option<String>)
    requires
        forall|p: &str| call_requires(*is_file, (p,)),
    ensures
        probe::chosen(
            *is_file,
            path_programs(dirs.deep_view(), name@, is_windows),
            r.deep_view(),
        ),
{
    let candidates = path_candidates(dirs, name, is_windows);
    probe::first_accepted(&candidates, is_file)
}

/// What the user is told where no backend is installed.
pub open spec fn missing_backend(bin: Seq<char>) -> Seq<char> {
    "Hermes backend not found. Looked for a managed runtime at "@ + bin
        + " and for `hermes` on PATH."@
}

/// Resolve the backend executable, preferring the managed runtime over the
/// directories of `PATH`, so that a stale global `hermes` cannot shadow the
/// install that the app manages. An explicit override wins over both: it is the
/// escape hatch for running the shell against an arbitrary checkout.
pub fn resolve_backend_command<F: Fn(&str) -> bool>(
    profile: Option<&str>,
    override_program: Option<&str>,
    host: &Host,
    path_dirs: &Vec<String>,
    is_file: &F,
) -> (r: Result<BackendCommand, String>)
    requires
        forall|p: &str| call_requires(*is_file, (p,)),
    ensures
        r matches Ok(command) ==> command.args.deep_view() == serve_args(profile.deep_view()),
        match text::non_blank(override_program.deep_view()) {
            Some(program) => r matches Ok(command) && command.program@ == program,
            None => {
                let managed = venv_programs(*host);
                let global = path_programs(path_dirs.deep_view(), "hermes"@, host.is_windows);
                match r {
                    Ok(command) => {
                        ||| probe::chosen(*is_file, managed, Some(command.program@))
                        ||| {
                            &&& probe::chosen(*is_file, managed, None)
                            &&& probe::chosen(*is_file, global, Some(command.program@))
                        }
                    },
                    Err(error) => {
                        &&& probe::chosen(*is_file, managed, None)
                        &&& probe::chosen(*is_file, global, None)
                        &&& error@ == missing_backend(host.venv_bin_path())
                    },
                }
            },
        },
{
    if let Some(program) = text::trim_option(override_program) {
        return Ok(BackendCommand { program, args: serve_backend_args(profile) });
    }
    let managed = venv_candidates(host);
    if let Some(program) = probe::first_accepted(&managed, is_file) {
        return Ok(BackendCommand { program, args: serve_backend_args(profile) });
    }
    if let Some(program) = which("hermes", path_dirs, host.is_windows, is_file) {
        return Ok(BackendCommand { program, args: serve_backend_args(profile) });
    }
    let bin = paths::venv_bin_dir(host);
    Err(
        text::cat3(
            "Hermes backend not found. Looked for a managed runtime at ",
            bin.as_str(),
            " and for `hermes` on PATH.",
        ),
    )
}

/// Whether a failure says that no backend is installed.
pub open spec fn says_backend_not_found(error: Seq<char>) -> bool {
    text::scan::occurs_at(error, "Hermes backend not found"@, 0)
}

/// Whether a spawn failure is specifically "no backend installed": the one
/// failure that the boot may recover from by running the installer.
pub fn is_backend_not_found(error: &str) -> (r: bool)
    ensures
        r == says_backend_not_found(error@),
{
    text::scan::starts_with(error, "Hermes backend not found")
}

/// The failure to resolve a backend is the failure that the boot recovers
/// from, wherever the runtime was looked for.
pub proof fn a_missing_backend_is_recognized(bin: Seq<char>)
    ensures
        says_backend_not_found(missing_backend(bin)),
{
    reveal_strlit("Hermes backend not found");
    reveal_strlit("Hermes backend not found. Looked for a managed runtime at ");
    let error = missing_backend(bin);
    let prefix = "Hermes backend not found"@;
    assert(error.subrange(0, prefix.len() as int) =~= prefix);
}

// ---------------------------------------------------------------------------
// Laws
// ---------------------------------------------------------------------------
/// A backend is asked to serve on this machine alone and on a port of its own
/// choice, and a profile is named in front of that: an absent and an empty one
/// are not named at all.
pub proof fn a_profile_is_named_in_front(name: Seq<char>)
    ensures
        serve_args(None) == seq!["serve"@, "--host"@, "127.0.0.1"@, "--port"@, "0"@],
        name.len() == 0 ==> serve_args(Some(name)) == serve_args(None),
        name.len() > 0 ==> serve_args(Some(name)) == seq!["--profile"@, name] + serve_args(None),
        dashboard_args(None) == seq![
            "dashboard"@,
            "--no-open"@,
            "--host"@,
            "127.0.0.1"@,
            "--port"@,
            "0"@,
        ],
        name.len() == 0 ==> dashboard_args(Some(name)) == dashboard_args(None),
        name.len() > 0 ==> dashboard_args(Some(name)) == seq!["--profile"@, name] + dashboard_args(
            None,
        ),
{
    assert(serve_args(None) =~= seq!["serve"@, "--host"@, "127.0.0.1"@, "--port"@, "0"@]);
    assert(dashboard_args(None) =~= seq![
        "dashboard"@,
        "--no-open"@,
        "--host"@,
        "127.0.0.1"@,
        "--port"@,
        "0"@,
    ]);
    if name.len() == 0 {
        assert(serve_args(Some(name)) =~= serve_args(None));
        assert(dashboard_args(Some(name)) =~= dashboard_args(None));
    } else {
        assert(serve_args(Some(name)) =~= seq!["--profile"@, name] + serve_args(None));
        assert(dashboard_args(Some(name)) =~= seq!["--profile"@, name] + dashboard_args(None));
    }
}

proof fn lemma_serve_index_behind(head: Seq<Seq<char>>, rest: Seq<Seq<char>>, i: int)
    requires
        0 <= i,
    ensures
        serve_index(head + rest, head.len() + i) == head.len() + serve_index(rest, i),
        0 <= serve_index(rest, i) <= rest.len(),
    decreases rest.len() - i,
{
    let all = head + rest;
    if i < rest.len() {
        assert(all[head.len() + i] == rest[i]);
        if rest[i] == "--profile"@ && i + 1 < rest.len() {
            lemma_serve_index_behind(head, rest, i + 2);
        } else if rest[i] != "serve"@ {
            lemma_serve_index_behind(head, rest, i + 1);
        }
    }
}

/// The fallback rewrites the first subcommand and nothing else: whatever stands
/// in front of it stays, a profile with its value among it, and so does whatever
/// follows it.
pub proof fn the_fallback_rewrites_the_subcommand_alone(
    first: Seq<char>,
    value: Seq<char>,
    rest: Seq<Seq<char>>,
)
    ensures
        fallback_args(Seq::empty()).len() == 0,
        fallback_args(seq!["serve"@] + rest) == seq!["dashboard"@, "--no-open"@] + rest,
        fallback_args(seq!["--profile"@, value] + rest) == seq!["--profile"@, value]
            + fallback_args(rest),
        first != "serve"@ && first != "--profile"@ ==> fallback_args(seq![first] + rest)
            == seq![first] + fallback_args(rest),
{
    reveal_strlit("--profile");
    reveal_strlit("serve");
    assert("--profile"@[0] != "serve"@[0]);
    let at = serve_index(rest, 0);
    lemma_serve_index_behind(Seq::empty(), rest, 0);
    let one = seq!["serve"@] + rest;
    assert(one[0] == "serve"@);
    assert(fallback_args(one) =~= seq!["dashboard"@, "--no-open"@] + rest);
    let two = seq!["--profile"@, value] + rest;
    lemma_serve_index_behind(seq!["--profile"@, value], rest, 0);
    assert(two[0] == "--profile"@);
    assert(serve_index(two, 0) == 2 + at);
    assert(fallback_args(two) =~= seq!["--profile"@, value] + fallback_args(rest));
    if first != "serve"@ && first != "--profile"@ {
        let other = seq![first] + rest;
        lemma_serve_index_behind(seq![first], rest, 0);
        assert(other[0] == first);
        assert(serve_index(other, 0) == 1 + at);
        assert(fallback_args(other) =~= seq![first] + fallback_args(rest));
    }
}

proof fn lemma_path_programs_add(
    first: Seq<Seq<char>>,
    second: Seq<Seq<char>>,
    name: Seq<char>,
    is_windows: bool,
)
    ensures
        path_programs(first + second, name, is_windows) == path_programs(first, name, is_windows)
            + path_programs(second, name, is_windows),
    decreases second.len(),
{
    let all = first + second;
    if second.len() == 0 {
        assert(all =~= first);
        assert(path_programs(all, name, is_windows) =~= path_programs(first, name, is_windows)
            + path_programs(second, name, is_windows));
    } else {
        lemma_path_programs_add(first, second.drop_last(), name, is_windows);
        assert(all.drop_last() =~= first + second.drop_last());
        assert(all.last() == second.last());
        assert(path_programs(all, name, is_windows) =~= path_programs(first, name, is_windows)
            + path_programs(second, name, is_windows));
    }
}

/// A search goes through its directories in order, each on its own: an empty one
/// names nothing, any other is asked for the program under its name and on
/// Windows, second, under its name with `.exe`.
pub proof fn directories_are_searched_in_order(
    first: Seq<Seq<char>>,
    second: Seq<Seq<char>>,
    dir: Seq<char>,
    name: Seq<char>,
)
    ensures
        forall|is_windows: bool|
            #![trigger path_programs(first + second, name, is_windows)]
            path_programs(first + second, name, is_windows) == path_programs(
                first,
                name,
                is_windows,
            ) + path_programs(second, name, is_windows),
        dir.len() > 0 ==> path_programs(seq![dir], name, false) == seq![
            paths::joined(dir, name, false),
        ],
        dir.len() > 0 ==> path_programs(seq![dir], name, true) == seq![
            paths::joined(dir, name, true),
            paths::joined(dir, name + ".exe"@, true),
        ],
        dir.len() == 0 ==> path_programs(seq![dir], name, false).len() == 0 && path_programs(
            seq![dir],
            name,
            true,
        ).len() == 0,
        path_programs(Seq::empty(), name, true).len() == 0,
        path_programs(Seq::empty(), name, false).len() == 0,
{
    assert forall|is_windows: bool|
        #![trigger path_programs(first + second, name, is_windows)]
        path_programs(first + second, name, is_windows) == path_programs(first, name, is_windows)
            + path_programs(second, name, is_windows) by {
        lemma_path_programs_add(first, second, name, is_windows);
    }
    let one = seq![dir];
    assert(one.drop_last() =~= Seq::<Seq<char>>::empty());
    assert(path_programs(one.drop_last(), name, true) =~= Seq::<Seq<char>>::empty());
    assert(path_programs(one.drop_last(), name, false) =~= Seq::<Seq<char>>::empty());
    if dir.len() > 0 {
        assert(path_programs(one, name, false) =~= seq![paths::joined(dir, name, false)]);
        assert(path_programs(one, name, true) =~= seq![
            paths::joined(dir, name, true),
            paths::joined(dir, name + ".exe"@, true),
        ]);
    }
}

/// The managed runtime is looked for in its own program directory, on Windows
/// first as `hermes.exe`.
pub proof fn the_managed_runtime_is_looked_for_in_its_directory(host: Host)
    ensures
        host.is_windows ==> venv_programs(host) == seq![
            paths::joined(host.venv_bin_path(), "hermes.exe"@, true),
            paths::joined(host.venv_bin_path(), "hermes"@, true),
        ],
        !host.is_windows ==> venv_programs(host) == seq![
            paths::joined(host.venv_bin_path(), "hermes"@, false),
        ],
{
}

/// Exactly the failures that begin with these words say that no backend is
/// installed, and the failure to resolve one does: it names the directory that
/// was looked in.
pub proof fn a_missing_backend_says_where_it_was_looked_for(error: Seq<char>, bin: Seq<char>)
    ensures
        says_backend_not_found(error) <==> exists|rest: Seq<char>|
            error == #[trigger] ("Hermes backend not found"@ + rest),
        exists|before: Seq<char>, after: Seq<char>|
            missing_backend(bin) == #[trigger] (before + bin + after),
        says_backend_not_found(missing_backend(bin)),
{
    let p = "Hermes backend not found"@;
    if says_backend_not_found(error) {
        let rest = error.skip(p.len() as int);
        assert(error =~= error.subrange(0, p.len() as int) + rest);
        assert(error == p + rest);
    }
    if exists|rest: Seq<char>| error == #[trigger] (p + rest) {
        let rest = choose|rest: Seq<char>| error == #[trigger] (p + rest);
        assert(error.subrange(0, p.len() as int) =~= p);
    }
    a_missing_backend_is_recognized(bin);
    assert(missing_backend(bin) == "Hermes backend not found. Looked for a managed runtime at "@
        + bin + " and for `hermes` on PATH."@);
}

proof fn lemma_serve_index_found(args: Seq<Seq<char>>, i: int)
    requires
        0 <= i,
    ensures
        ({
            let at = serve_index(args, i);
            &&& 0 <= at <= args.len()
            &&& at < args.len() ==> i <= at && args[at] == "serve"@
            &&& !args.contains("--profile"@) ==> forall|j: int|
                i <= j < at ==> #[trigger] args[j] != "serve"@
        }),
    decreases args.len() - i,
{
    if i < args.len() && args[i] != "serve"@ {
        if args[i] == "--profile"@ && i + 1 < args.len() {
            lemma_serve_index_found(args, i + 2);
        } else {
            lemma_serve_index_found(args, i + 1);
        }
    }
}

/// The subcommand that is found is a `serve`, and where no profile is named, the
/// first of them; none is found where there is none.
pub proof fn a_subcommand_is_found_where_it_stands(args: Seq<Seq<char>>)
    ensures
        ({
            let at = serve_index(args, 0);
            &&& 0 <= at <= args.len()
            &&& at < args.len() ==> args[at] == "serve"@
            &&& !args.contains("--profile"@) ==> {
                &&& forall|j: int| 0 <= j < at ==> #[trigger] args[j] != "serve"@
                &&& at < args.len() <==> args.contains("serve"@)
            }
        }),
{
    lemma_serve_index_found(args, 0);
    let at = serve_index(args, 0);
    if at < args.len() {
        assert(args.contains(args[at]));
    }
}

// ---------------------------------------------------------------------------
// Laws of the operations themselves
// ---------------------------------------------------------------------------
/// The backend that is started is the one that is named, without the white space
/// around its name, and with none named the managed one before one of the search
/// path; it is always started as a server for the profile that is asked for.
pub proof fn a_backend_is_resolved_in_order<F: Fn(&str) -> bool>(
    profile: Option<&str>,
    override_program: Option<&str>,
    host: Host,
    path_dirs: Vec<String>,
    is_file: F,
    r: Result<BackendCommand, String>,
)
    requires
        call_ensures(
            resolve_backend_command::<F>,
            (profile, override_program, &host, &path_dirs, &is_file),
            r,
        ),
    ensures
        ({
            let named = override_program is Some && !text::is_blank(override_program->0@);
            let managed = venv_programs(host);
            let global = path_programs(path_dirs.deep_view(), "hermes"@, host.is_windows);
            &&& r is Ok ==> r->Ok_0.args.deep_view() == serve_args(profile.deep_view())
            &&& named ==> r is Ok && r->Ok_0.program@ == text::trimmed(override_program->0@)
            &&& !named && r is Ok ==> managed.contains(r->Ok_0.program@) || global.contains(
                r->Ok_0.program@,
            )
            &&& !named && (exists|i: int|
                0 <= i < managed.len() && !probe::says(is_file, #[trigger] managed[i], false))
                ==> r is Ok && managed.contains(r->Ok_0.program@)
            &&& !named && (exists|i: int|
                0 <= i < global.len() && !probe::says(is_file, #[trigger] global[i], false))
                ==> r is Ok
            &&& !named && (forall|i: int|
                0 <= i < managed.len() ==> !probe::says(is_file, #[trigger] managed[i], true)) && (
            forall|i: int|
                0 <= i < global.len() ==> !probe::says(is_file, #[trigger] global[i], true))
                ==> r is Err && r->Err_0@ == missing_backend(host.venv_bin_path())
        }),
{
}

} // verus!
