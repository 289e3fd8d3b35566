//! Environment construction for the spawned backend.
//!
//! The spawned backend needs three things that a shell launched from a dock
//! does not inherit: the Hermes-managed Node directories on `PATH`, the managed
//! runtime's own program directory, and on POSIX the directories that graphical
//! applications start without. `PYTHONUTF8` is forced so that standard streams
//! are UTF-8 under every locale.
use crate::paths;
use crate::paths::Host;
use crate::text;
use vstd::prelude::*;

verus! {

/// What separates the directories of a search path.
pub open spec fn delimiter(is_windows: bool) -> char {
    if is_windows {
        ';'
    } else {
        ':'
    }
}

/// What separates the directories of a search path.
pub fn path_delimiter(is_windows: bool) -> (r: char)
    ensures
        r == delimiter(is_windows),
{
    if is_windows {
        ';'
    } else {
        ':'
    }
}

/// The directories that `entries` name, in order. An entry may itself be a
/// whole search path; one that holds nothing but white space names none.
pub open spec fn path_parts(entries: Seq<Seq<char>>, delim: char) -> Seq<Seq<char>>
    decreases entries.len(),
{
    if entries.len() == 0 {
        Seq::empty()
    } else if text::is_blank(entries.last()) {
        path_parts(entries.drop_last(), delim)
    } else {
        path_parts(entries.drop_last(), delim) + text::scan::split(entries.last(), delim)
    }
}

/// The first occurrence of each non-empty part, in order.
pub open spec fn kept(parts: Seq<Seq<char>>) -> Seq<Seq<char>>
    decreases parts.len(),
{
    if parts.len() == 0 {
        Seq::empty()
    } else {
        let before = kept(parts.drop_last());
        if parts.last().len() == 0 || before.contains(parts.last()) {
            before
        } else {
            before.push(parts.last())
        }
    }
}

/// The directories of a search path made of `entries`.
pub open spec fn unique_parts(entries: Seq<Seq<char>>, is_windows: bool) -> Seq<Seq<char>> {
    kept(path_parts(entries, delimiter(is_windows)))
}

/// The search path made of `entries`.
pub open spec fn unique_path(entries: Seq<Seq<char>>, is_windows: bool) -> Seq<char> {
    text::scan::join(unique_parts(entries, is_windows), seq![delimiter(is_windows)])
}

/// Take the parts of one entry into `ordered`.
fn keep_parts(ordered: &mut Vec<String>, parts: &Vec<String>, seen: Ghost<Seq<Seq<char>>>)
    requires
        old(ordered).deep_view() == kept(seen@),
    ensures
        final(ordered).deep_view() == kept(seen@ + parts.deep_view()),
{
    let ghost all = parts.deep_view();
    let mut i: usize = 0;
    proof {
        assert(seen@ + all.take(0) =~= seen@);
    }
    while i < parts.len()
        invariant
            i <= parts@.len(),
            all == parts.deep_view(),
            ordered.deep_view() == kept(seen@ + all.take(i as int)),
        decreases parts@.len() - i,
    {
        let part = parts[i].as_str();
        let ghost before = ordered.deep_view();
        proof {
            let longer = seen@ + all.take(i + 1);
            assert(longer.drop_last() =~= seen@ + all.take(i as int));
            assert(longer.last() == part@);
        }
        if !text::is_empty(part) && !text::list_contains(ordered, part) {
            ordered.push(part.to_owned());
            proof {
                assert(ordered.deep_view() =~= before.push(part@));
            }
        }
        i = i + 1;
    }
    proof {
        assert(all.take(i as int) =~= all);
    }
}

/// Append entries in priority order, dropping duplicates and empties.
pub fn append_unique(entries: &Vec<String>, is_windows: bool) -> (r: String)
    ensures
        r@ == unique_path(entries.deep_view(), is_windows),
{
    let delim = path_delimiter(is_windows);
    let ghost all = entries.deep_view();
    let mut ordered: Vec<String> = Vec::new();
    let mut i: usize = 0;
    proof {
        assert(all.take(0) =~= Seq::<Seq<char>>::empty());
        assert(ordered.deep_view() =~= Seq::<Seq<char>>::empty());
    }
    while i < entries.len()
        invariant
            i <= entries@.len(),
            all == entries.deep_view(),
            delim == delimiter(is_windows),
            ordered.deep_view() == kept(path_parts(all.take(i as int), delim)),
        decreases entries@.len() - i,
    {
        let entry = entries[i].as_str();
        let ghost seen = path_parts(all.take(i as int), delim);
        proof {
            assert(all.take(i + 1).drop_last() =~= all.take(i as int));
            assert(all.take(i + 1).last() == entry@);
        }
        let trimmed = text::trim(entry);
        if !text::is_empty(trimmed.as_str()) {
            let parts = text::scan::split_text(entry, delim);
            keep_parts(&mut ordered, &parts, Ghost(seen));
        }
        i = i + 1;
    }
    proof {
        assert(all.take(i as int) =~= all);
    }
    let mut sep = String::new();
    sep.push(delim);
    proof {
        assert(sep@ =~= seq![delim]);
    }
    text::scan::join_text(&ordered, sep.as_str())
}

/// What goes into the backend's search path, in priority order.
pub open spec fn backend_path_entries(
    host: Host,
    venv_root: Seq<char>,
    inherited: Option<Seq<char>>,
) -> Seq<Seq<char>> {
    runtime_path_entries(host, venv_root) + (match inherited {
        Some(path) => seq![path],
        None => Seq::empty(),
    }) + (if host.is_windows {
        Seq::empty()
    } else {
        sane_path_entries()
    })
}

/// What the runtime itself puts in front: its Node directories, then the
/// program directory of the environment that is actually in use.
pub open spec fn runtime_path_entries(host: Host, venv_root: Seq<char>) -> Seq<Seq<char>> {
    host.node_paths().push(
        paths::joined(
            venv_root,
            if host.is_windows {
                "Scripts"@
            } else {
                "bin"@
            },
            host.is_windows,
        ),
    )
}

/// The directories that a POSIX application launched from a dock misses.
pub open spec fn sane_path_entries() -> Seq<Seq<char>> {
    Seq::new(8, |i: int| paths::POSIX_SANE_PATH_ENTRIES@[i]@)
}

/// The search path that the backend is spawned with. `inherited` is the shell's
/// own `PATH`.
pub fn desktop_backend_path(host: &Host, venv_root: &str, inherited: Option<&str>) -> (r: String)
    ensures
        r@ == unique_path(
            backend_path_entries(*host, venv_root@, inherited.deep_view()),
            host.is_windows,
        ),
{
    let mut entries = paths::hermes_node_path_entries(host);
    if host.is_windows {
        entries.push(paths::join(venv_root, "Scripts", true));
    } else {
        entries.push(paths::join(venv_root, "bin", false));
    }
    proof {
        assert(entries.deep_view() =~= runtime_path_entries(*host, venv_root@));
    }
    if let Some(path) = inherited {
        entries.push(path.to_owned());
    }
    let ghost before = entries.deep_view();
    if !host.is_windows {
        let sane = paths::POSIX_SANE_PATH_ENTRIES;
        let mut i: usize = 0;
        proof {
            assert(entries.deep_view() =~= before + sane_path_entries().take(0));
        }
        while i < 8
            invariant
                i <= 8,
                sane@ == paths::POSIX_SANE_PATH_ENTRIES@,
                entries.deep_view() == before + sane_path_entries().take(i as int),
            decreases 8 - i,
        {
            let ghost so_far = entries.deep_view();
            entries.push(sane[i].to_owned());
            proof {
                assert(entries.deep_view() =~= so_far.push(sane_path_entries()[i as int]));
                assert(sane_path_entries().take(i + 1) =~= sane_path_entries().take(i as int).push(
                    sane_path_entries()[i as int],
                ));
                assert(entries.deep_view() =~= before + sane_path_entries().take(i + 1));
            }
            i = i + 1;
        }
        proof {
            assert(sane_path_entries().take(8) =~= sane_path_entries());
        }
    }
    proof {
        assert(entries.deep_view() =~= backend_path_entries(
            *host,
            venv_root@,
            inherited.deep_view(),
        ));
    }
    append_unique(&entries, host.is_windows)
}

/// The environment of the shell, as far as the backend's depends on it.
#[derive(Debug, Clone, PartialEq, Eq)]
pub struct InheritedEnv {
    /// `PYTHONPATH`.
    pub python_path: Option<String>,
    /// `PYTHONUTF8`.
    pub python_utf8: Option<String>,
    /// `PATH`.
    pub path: Option<String>,
}

/// What is layered onto the inherited environment for the backend.
pub open spec fn backend_env(host: Host, venv_root: Seq<char>, inherited: InheritedEnv) -> Seq<
    (Seq<char>, Seq<char>),
> {
    seq![
        (
            "PYTHONPATH"@,
            match inherited.python_path {
                Some(path) => unique_path(seq![path@], host.is_windows),
                None => Seq::empty(),
            },
        ),
        (
            "PYTHONUTF8"@,
            match inherited.python_utf8 {
                Some(mode) => mode@,
                None => "1"@,
            },
        ),
        (
            "PATH"@,
            unique_path(
                backend_path_entries(host, venv_root, inherited.path.deep_view()),
                host.is_windows,
            ),
        ),
    ]
}

/// Environment deltas layered onto the inherited environment for the backend.
/// An explicit `PYTHONUTF8` wins; otherwise UTF-8 mode is forced.
pub fn build_backend_env(host: &Host, venv_root: &str, inherited: &InheritedEnv) -> (r: Vec<
    (String, String),
>)
    ensures
        r.deep_view() == backend_env(*host, venv_root@, *inherited),
{
    let mut env: Vec<(String, String)> = Vec::new();
    let mut python_entries: Vec<String> = Vec::new();
    if let Some(path) = &inherited.python_path {
        python_entries.push(path.clone());
    }
    proof {
        if inherited.python_path is Some {
            assert(python_entries.deep_view() =~= seq![inherited.python_path->0@]);
        } else {
            assert(python_entries.deep_view() =~= Seq::<Seq<char>>::empty());
            assert(path_parts(Seq::empty(), delimiter(host.is_windows)) =~= Seq::<
                Seq<char>,
            >::empty());
            assert(kept(Seq::empty()) =~= Seq::<Seq<char>>::empty());
        }
    }
    let python_path = append_unique(&python_entries, host.is_windows);
    env.push(("PYTHONPATH".to_owned(), python_path));
    let python_utf8 = match &inherited.python_utf8 {
        Some(mode) => mode.clone(),
        None => "1".to_owned(),
    };
    env.push(("PYTHONUTF8".to_owned(), python_utf8));
    let path = desktop_backend_path(host, venv_root, text::borrowed(&inherited.path));
    env.push(("PATH".to_owned(), path));
    proof {
        assert(env.deep_view() =~= backend_env(*host, venv_root@, *inherited));
    }
    env
}

// ---------------------------------------------------------------------------
// Laws
// ---------------------------------------------------------------------------
proof fn lemma_kept(parts: Seq<Seq<char>>)
    ensures
        kept(parts).no_duplicates(),
        forall|i: int| 0 <= i < kept(parts).len() ==> (#[trigger] kept(parts)[i]).len() > 0,
        forall|i: int|
            0 <= i < kept(parts).len() ==> parts.contains(#[trigger] kept(parts)[i]),
        forall|i: int|
            0 <= i < parts.len() && (#[trigger] parts[i]).len() > 0 ==> kept(parts).contains(
                parts[i],
            ),
    decreases parts.len(),
{
    if parts.len() > 0 {
        let rest = parts.drop_last();
        let before = kept(rest);
        let after = kept(parts);
        lemma_kept(rest);
        assert forall|i: int| 0 <= i < after.len() implies parts.contains(#[trigger] after[i]) by {
            if i < before.len() {
                assert(rest.contains(before[i]));
                let k = choose|k: int| 0 <= k < rest.len() && rest[k] == before[i];
                assert(parts[k] == after[i]);
            } else {
                assert(parts[parts.len() - 1] == after[i]);
            }
        }
        assert forall|i: int| 0 <= i < parts.len() && (#[trigger] parts[i]).len() > 0 implies after.contains(
            parts[i],
        ) by {
            if i < rest.len() {
                assert(rest[i] == parts[i]);
                let k = choose|k: int| 0 <= k < before.len() && before[k] == parts[i];
                assert(after[k] == parts[i]);
            } else if before.contains(parts.last()) {
                assert(after == before);
            } else {
                assert(after[after.len() - 1] == parts[i]);
            }
        }
    }
}

proof fn lemma_split_pieces(s: Seq<char>, c: char)
    ensures
        forall|i: int|
            0 <= i < text::scan::split(s, c).len() ==> !(#[trigger] text::scan::split(
                s,
                c,
            )[i]).contains(c),
    decreases s.len(),
{
    let n = text::scan::first_index(s, c) as int;
    text::scan::lemma_first_index_is_first(s, c);
    let pieces = text::scan::split(s, c);
    if n < s.len() {
        let rest = s.subrange(n + 1, s.len() as int);
        lemma_split_pieces(rest, c);
        assert forall|i: int| 0 <= i < pieces.len() implies !(#[trigger] pieces[i]).contains(c) by {
            if i == 0 {
                assert(pieces[0] == s.subrange(0, n));
            } else {
                assert(pieces[i] == text::scan::split(rest, c)[i - 1]);
            }
        }
    }
}

proof fn lemma_path_parts_pieces(entries: Seq<Seq<char>>, delim: char)
    ensures
        forall|i: int|
            0 <= i < path_parts(entries, delim).len() ==> !(#[trigger] path_parts(
                entries,
                delim,
            )[i]).contains(delim),
    decreases entries.len(),
{
    if entries.len() > 0 {
        let before = path_parts(entries.drop_last(), delim);
        let pieces = text::scan::split(entries.last(), delim);
        lemma_path_parts_pieces(entries.drop_last(), delim);
        lemma_split_pieces(entries.last(), delim);
        let all = path_parts(entries, delim);
        assert forall|i: int| 0 <= i < all.len() implies !(#[trigger] all[i]).contains(delim) by {
            if i < before.len() {
                assert(all[i] == before[i]);
            } else {
                assert(all[i] == pieces[i - before.len()]);
            }
        }
    }
}

/// A search path names no directory twice and none that is empty, and it is
/// read back as the directories that went into it.
pub proof fn a_search_path_holds_each_directory_once(entries: Seq<Seq<char>>, is_windows: bool)
    ensures
        unique_parts(entries, is_windows).no_duplicates(),
        forall|i: int|
            0 <= i < unique_parts(entries, is_windows).len() ==> (#[trigger] unique_parts(
                entries,
                is_windows,
            )[i]).len() > 0,
        forall|part: Seq<char>|
            part.len() > 0 ==> (unique_parts(entries, is_windows).contains(part) <==> path_parts(
                entries,
                delimiter(is_windows),
            ).contains(part)),
        unique_parts(entries, is_windows).len() > 0 ==> text::scan::split(
            unique_path(entries, is_windows),
            delimiter(is_windows),
        ) == unique_parts(entries, is_windows),
{
    let delim = delimiter(is_windows);
    let parts = path_parts(entries, delim);
    let dirs = kept(parts);
    lemma_kept(parts);
    lemma_path_parts_pieces(entries, delim);
    assert forall|i: int| 0 <= i < dirs.len() implies !(#[trigger] dirs[i]).contains(delim) by {
        assert(parts.contains(dirs[i]));
        let k = choose|k: int| 0 <= k < parts.len() && parts[k] == dirs[i];
        assert(!parts[k].contains(delim));
    }
    assert forall|part: Seq<char>| part.len() > 0 implies (dirs.contains(part) <==> parts.contains(
        part,
    )) by {
        if dirs.contains(part) {
            let i = choose|i: int| 0 <= i < dirs.len() && dirs[i] == part;
            assert(parts.contains(dirs[i]));
        }
        if parts.contains(part) {
            let i = choose|i: int| 0 <= i < parts.len() && parts[i] == part;
            assert(dirs.contains(parts[i]));
        }
    }
    if dirs.len() > 0 {
        text::scan::split_undoes_join(dirs, delim);
    }
}

proof fn lemma_kept_prefix(first: Seq<Seq<char>>, second: Seq<Seq<char>>)
    ensures
        kept(first).is_prefix_of(kept(first + second)),
    decreases second.len(),
{
    if second.len() == 0 {
        assert(first + second =~= first);
    } else {
        lemma_kept_prefix(first, second.drop_last());
        assert((first + second).drop_last() =~= first + second.drop_last());
        assert((first + second).last() == second.last());
    }
}

proof fn lemma_path_parts_split(first: Seq<Seq<char>>, second: Seq<Seq<char>>, delim: char)
    ensures
        path_parts(first + second, delim) == path_parts(first, delim) + path_parts(second, delim),
    decreases second.len(),
{
    if second.len() == 0 {
        assert(first + second =~= first);
        assert(path_parts(second, delim) =~= Seq::<Seq<char>>::empty());
    } else {
        lemma_path_parts_split(first, second.drop_last(), delim);
        assert((first + second).drop_last() =~= first + second.drop_last());
        assert((first + second).last() == second.last());
        assert(path_parts(first + second, delim) =~= path_parts(first, delim) + path_parts(
            second,
            delim,
        ));
    }
}

/// Entries that come first win: the directories of the earlier entries head the
/// search path, in their own order, whatever follows them.
pub proof fn earlier_entries_come_first(
    first: Seq<Seq<char>>,
    second: Seq<Seq<char>>,
    is_windows: bool,
)
    ensures
        unique_parts(first, is_windows).is_prefix_of(unique_parts(first + second, is_windows)),
{
    let delim = delimiter(is_windows);
    lemma_path_parts_split(first, second, delim);
    lemma_kept_prefix(path_parts(first, delim), path_parts(second, delim));
}

/// The runtime's own directories win over the inherited search path.
pub proof fn the_runtime_wins_over_the_inherited_path(
    host: Host,
    venv_root: Seq<char>,
    inherited: Option<Seq<char>>,
)
    ensures
        unique_parts(runtime_path_entries(host, venv_root), host.is_windows).is_prefix_of(
            unique_parts(backend_path_entries(host, venv_root, inherited), host.is_windows),
        ),
{
    let own = runtime_path_entries(host, venv_root);
    let all = backend_path_entries(host, venv_root, inherited);
    let rest = all.subrange(own.len() as int, all.len() as int);
    assert(all =~= own + rest);
    earlier_entries_come_first(own, rest, host.is_windows);
}

/// A search path names exactly what its entries name: a directory is on it where
/// an entry that is not blank has it between its delimiters, `;` on Windows and
/// `:` elsewhere.
pub proof fn a_search_path_names_what_its_entries_name(
    entries: Seq<Seq<char>>,
    is_windows: bool,
    part: Seq<char>,
)
    requires
        part.len() > 0,
    ensures
        unique_parts(entries, is_windows).contains(part) <==> exists|i: int|
            0 <= i < entries.len() && !text::is_blank(#[trigger] entries[i]) && text::scan::split(
                entries[i],
                if is_windows {
                    ';'
                } else {
                    ':'
                },
            ).contains(part),
{
    a_search_path_holds_each_directory_once(entries, is_windows);
    lemma_path_parts_contains(entries, delimiter(is_windows), part);
}

proof fn lemma_path_parts_contains(entries: Seq<Seq<char>>, delim: char, part: Seq<char>)
    ensures
        path_parts(entries, delim).contains(part) <==> exists|i: int|
            0 <= i < entries.len() && !text::is_blank(#[trigger] entries[i]) && text::scan::split(
                entries[i],
                delim,
            ).contains(part),
    decreases entries.len(),
{
    if entries.len() > 0 {
        let rest = entries.drop_last();
        lemma_path_parts_contains(rest, delim, part);
        let before = path_parts(rest, delim);
        let pieces = text::scan::split(entries.last(), delim);
        let all = path_parts(entries, delim);
        if all.contains(part) {
            let k = choose|k: int| 0 <= k < all.len() && all[k] == part;
            if k < before.len() {
                assert(before[k] == part);
                let i = choose|i: int|
                    0 <= i < rest.len() && !text::is_blank(#[trigger] rest[i])
                        && text::scan::split(rest[i], delim).contains(part);
                assert(entries[i] == rest[i]);
            } else {
                assert(pieces[k - before.len()] == part);
                assert(entries[entries.len() - 1] == entries.last());
            }
        }
        if exists|i: int|
            0 <= i < entries.len() && !text::is_blank(#[trigger] entries[i]) && text::scan::split(
                entries[i],
                delim,
            ).contains(part) {
            let i = choose|i: int|
                0 <= i < entries.len() && !text::is_blank(#[trigger] entries[i])
                    && text::scan::split(entries[i], delim).contains(part);
            if i < rest.len() {
                assert(rest[i] == entries[i]);
                let k = choose|k: int| 0 <= k < before.len() && before[k] == part;
                assert(all[k] == part);
            } else {
                let k = choose|k: int| 0 <= k < pieces.len() && pieces[k] == part;
                assert(all[before.len() + k] == part);
            }
        }
    }
}

proof fn lemma_kept_distinct(parts: Seq<Seq<char>>)
    requires
        parts.no_duplicates(),
        forall|i: int| 0 <= i < parts.len() ==> (#[trigger] parts[i]).len() > 0,
    ensures
        kept(parts) == parts,
    decreases parts.len(),
{
    if parts.len() > 0 {
        let rest = parts.drop_last();
        assert forall|i: int| 0 <= i < rest.len() implies (#[trigger] rest[i]).len() > 0 by {
            assert(rest[i] == parts[i]);
        }
        lemma_kept_distinct(rest);
        if rest.contains(parts.last()) {
            let k = choose|k: int| 0 <= k < rest.len() && rest[k] == parts.last();
            assert(parts[k] == parts[parts.len() - 1]);
        }
        assert(parts[parts.len() - 1].len() > 0);
        assert(rest.push(parts.last()) =~= parts);
    } else {
        assert(kept(parts) =~= parts);
    }
}

/// A search path that is already clean keeps its directories in their order.
pub proof fn a_clean_search_path_stays_as_it_is(dirs: Seq<Seq<char>>, is_windows: bool)
    requires
        dirs.len() > 0,
        dirs.no_duplicates(),
        forall|i: int|
            0 <= i < dirs.len() ==> (#[trigger] dirs[i]).len() > 0 && !dirs[i].contains(
                if is_windows {
                    ';'
                } else {
                    ':'
                },
            ),
        !text::is_blank(
            text::scan::join(
                dirs,
                seq![
                    if is_windows {
                        ';'
                    } else {
                        ':'
                    },
                ],
            ),
        ),
    ensures
        ({
            let path = text::scan::join(
                dirs,
                seq![
                    if is_windows {
                        ';'
                    } else {
                        ':'
                    },
                ],
            );
            unique_path(seq![path], is_windows) == path
        }),
{
    let delim = delimiter(is_windows);
    let path = text::scan::join(dirs, seq![delim]);
    text::scan::split_undoes_join(dirs, delim);
    let entries = seq![path];
    assert(entries.drop_last() =~= Seq::<Seq<char>>::empty());
    assert(path_parts(entries.drop_last(), delim) =~= Seq::<Seq<char>>::empty());
    assert(path_parts(entries, delim) =~= dirs);
    lemma_kept_distinct(dirs);
}

/// The backend searches its Node directories, the programs of the environment in
/// use, then what the shell itself searches, and off Windows at last the eight
/// usual directories: a directory is on its search path exactly where one of
/// these names it.
pub proof fn the_backend_searches_what_the_shell_searches(
    host: Host,
    venv_root: Seq<char>,
    inherited: Option<Seq<char>>,
)
    ensures
        ({
            let entries = backend_path_entries(host, venv_root, inherited);
            let programs = paths::joined(
                venv_root,
                if host.is_windows {
                    "Scripts"@
                } else {
                    "bin"@
                },
                host.is_windows,
            );
            let own = host.node_paths().push(programs);
            let usual = seq![
                "/opt/homebrew/bin"@,
                "/opt/homebrew/sbin"@,
                "/usr/local/sbin"@,
                "/usr/local/bin"@,
                "/usr/sbin"@,
                "/usr/bin"@,
                "/sbin"@,
                "/bin"@,
            ];
            &&& host.is_windows && inherited is None ==> entries == own
            &&& host.is_windows && inherited is Some ==> entries == own.push(inherited->0)
            &&& !host.is_windows && inherited is None ==> entries == own + usual
            &&& !host.is_windows && inherited is Some ==> entries == own.push(inherited->0) + usual
        }),
{
    let entries = backend_path_entries(host, venv_root, inherited);
    let own = runtime_path_entries(host, venv_root);
    let usual = seq![
        "/opt/homebrew/bin"@,
        "/opt/homebrew/sbin"@,
        "/usr/local/sbin"@,
        "/usr/local/bin"@,
        "/usr/sbin"@,
        "/usr/bin"@,
        "/sbin"@,
        "/bin"@,
    ];
    assert(sane_path_entries() =~= usual);
    if host.is_windows {
        if inherited is None {
            assert(entries =~= own);
        } else {
            assert(entries =~= own.push(inherited->0));
        }
    } else {
        if inherited is None {
            assert(entries =~= own + usual);
        } else {
            assert(entries =~= own.push(inherited->0) + usual);
        }
    }
}

/// The value that the last pair with this name sets.
pub open spec fn value_set(env: Seq<(Seq<char>, Seq<char>)>, name: Seq<char>) -> Option<Seq<char>>
    decreases env.len(),
{
    if env.len() == 0 {
        None
    } else if env.last().0 == name {
        Some(env.last().1)
    } else {
        value_set(env.drop_last(), name)
    }
}

/// What the backend finds in its environment: UTF-8 mode unless the shell chose
/// otherwise, its search path, and a module path with what the shell's has.
pub proof fn the_backend_finds_its_environment(
    host: Host,
    venv_root: Seq<char>,
    inherited: InheritedEnv,
)
    ensures
        ({
            let env = backend_env(host, venv_root, inherited);
            &&& inherited.python_utf8 is None ==> value_set(env, "PYTHONUTF8"@) == Some("1"@)
            &&& inherited.python_utf8 is Some ==> value_set(env, "PYTHONUTF8"@) == Some(
                inherited.python_utf8->0@,
            )
            &&& value_set(env, "PATH"@) == Some(
                unique_path(
                    backend_path_entries(host, venv_root, inherited.path.deep_view()),
                    host.is_windows,
                ),
            )
            &&& inherited.python_path is None ==> value_set(env, "PYTHONPATH"@) == Some(
                Seq::<char>::empty(),
            )
            &&& inherited.python_path is Some ==> value_set(env, "PYTHONPATH"@) == Some(
                unique_path(seq![inherited.python_path->0@], host.is_windows),
            )
            &&& env.len() == 3
        }),
{
    reveal_strlit("PYTHONPATH");
    reveal_strlit("PYTHONUTF8");
    reveal_strlit("PATH");
    reveal_with_fuel(value_set, 4);
    assert("PATH"@.len() != "PYTHONPATH"@.len());
    assert("PYTHONUTF8"@[6] != "PYTHONPATH"@[6]);
}

} // verus!
