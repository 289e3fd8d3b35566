//! Finding the build-time install stamp.
use crate::bootstrap::installer;
use crate::bootstrap::InstallStamp;
use crate::paths;
use crate::text;
use vstd::prelude::*;

verus! {

/// Where a stamp can be found.
#[derive(Debug, Clone, PartialEq, Eq)]
pub enum StampSource {
    /// The text itself.
    Inline(String),
    /// The file at this path.
    File(String),
}

/// What a `StampSource` says.
#[verifier::ext_equal]
pub enum StampSourceView {
    Inline(Seq<char>),
    File(Seq<char>),
}

impl DeepView for StampSource {
    type V = StampSourceView;

    open spec fn deep_view(&self) -> StampSourceView {
        match self {
            StampSource::Inline(text) => StampSourceView::Inline(text@),
            StampSource::File(path) => StampSourceView::File(path@),
        }
    }
}

/// Where the stamp is looked for, in order: an explicit override, as the stamp
/// itself and as the path of one; the resource directory, in both places where a
/// bundle may put it; and next to the program.
pub open spec fn stamp_sources(
    explicit: Option<Seq<char>>,
    resource_dir: Option<Seq<char>>,
    exe_dir: Option<Seq<char>>,
    is_windows: bool,
) -> Seq<StampSourceView> {
    (match text::non_blank(explicit) {
        Some(value) => seq![StampSourceView::Inline(value), StampSourceView::File(value)],
        None => Seq::empty(),
    }) + (match resource_dir {
        Some(dir) => seq![
            StampSourceView::File(paths::joined(dir, "install-stamp.json"@, is_windows)),
            StampSourceView::File(
                paths::joined(
                    paths::joined(dir, "build"@, is_windows),
                    "install-stamp.json"@,
                    is_windows,
                ),
            ),
        ],
        None => Seq::empty(),
    }) + (match exe_dir {
        Some(dir) => seq![
            StampSourceView::File(paths::joined(dir, "install-stamp.json"@, is_windows)),
        ],
        None => Seq::empty(),
    })
}

/// Whether `read`, asked for the file `path`, answered `contents`.
pub open spec fn reads<F: Fn(&str) -> Option<String>>(
    read: F,
    path: Seq<char>,
    contents: Option<String>,
) -> bool {
    exists|p: &str| p@ == path && #[trigger] call_ensures(read, (p,), contents)
}

/// Whether `stamp` is what the file at `path` holds: a file that cannot be read
/// holds none.
pub open spec fn file_holds<F: Fn(&str) -> Option<String>, G: Fn(&str) -> Option<InstallStamp>>(
    path: Seq<char>,
    read: F,
    decode: G,
    stamp: Option<InstallStamp>,
) -> bool {
    exists|contents: Option<String>|
        {
            &&& #[trigger] reads(read, path, contents)
            &&& contents is None ==> stamp is None
            &&& contents is Some ==> installer::decodes(decode, contents->0@, stamp)
        }
}

/// Whether `stamp` is what a source holds: a text that is no stamp holds none.
pub open spec fn holds<F: Fn(&str) -> Option<String>, G: Fn(&str) -> Option<InstallStamp>>(
    source: StampSourceView,
    read: F,
    decode: G,
    stamp: Option<InstallStamp>,
) -> bool {
    match source {
        StampSourceView::Inline(text) => installer::decodes(decode, text, stamp),
        StampSourceView::File(path) => file_holds(path, read, decode, stamp),
    }
}

/// Whether `stamp` is what the first source that holds one holds.
pub open spec fn is_first_stamp<
    F: Fn(&str) -> Option<String>,
    G: Fn(&str) -> Option<InstallStamp>,
>(sources: Seq<StampSourceView>, read: F, decode: G, stamp: Option<InstallStamp>) -> bool {
    match stamp {
        Some(found) => exists|i: int|
            {
                &&& 0 <= i < sources.len()
                &&& holds(#[trigger] sources[i], read, decode, Some(found))
                &&& forall|j: int| 0 <= j < i ==> holds(#[trigger] sources[j], read, decode, None)
            },
        None => forall|j: int|
            0 <= j < sources.len() ==> holds(#[trigger] sources[j], read, decode, None),
    }
}

fn sources(
    explicit: Option<&str>,
    resource_dir: Option<&str>,
    exe_dir: Option<&str>,
    is_windows: bool,
) -> (r: Vec<StampSource>)
    ensures
        r.deep_view() == stamp_sources(
            explicit.deep_view(),
            resource_dir.deep_view(),
            exe_dir.deep_view(),
            is_windows,
        ),
{
    let mut all: Vec<StampSource> = Vec::new();
    if let Some(value) = text::trim_option(explicit) {
        all.push(StampSource::Inline(value.clone()));
        all.push(StampSource::File(value));
    }
    if let Some(dir) = resource_dir {
        let build = paths::join(dir, "build", is_windows);
        all.push(StampSource::File(paths::join(dir, "install-stamp.json", is_windows)));
        all.push(StampSource::File(paths::join(build.as_str(), "install-stamp.json", is_windows)));
    }
    if let Some(dir) = exe_dir {
        all.push(StampSource::File(paths::join(dir, "install-stamp.json", is_windows)));
    }
    proof {
        assert(all.deep_view() =~= stamp_sources(
            explicit.deep_view(),
            resource_dir.deep_view(),
            exe_dir.deep_view(),
            is_windows,
        ));
    }
    all
}

fn look_into<F: Fn(&str) -> Option<String>, G: Fn(&str) -> Option<InstallStamp>>(
    source: &StampSource,
    read: &F,
    decode: &G,
) -> (r: Option<InstallStamp>)
    requires
        forall|p: &str| call_requires(*read, (p,)),
        forall|p: &str| call_requires(*decode, (p,)),
    ensures
        holds(source.deep_view(), *read, *decode, r),
{
    match source {
        StampSource::Inline(text) => {
            let given = text.as_str();
            let r = decode(given);
            assert(call_ensures(*decode, (given,), r));
            assert(installer::decodes(*decode, text@, r));
            r
        },
        StampSource::File(path) => {
            let asked = path.as_str();
            let contents = read(asked);
            assert(call_ensures(*read, (asked,), contents));
            assert(reads(*read, path@, contents));
            let r = match &contents {
                Some(text) => {
                    let given = text.as_str();
                    let r = decode(given);
                    assert(call_ensures(*decode, (given,), r));
                    assert(installer::decodes(*decode, text@, r));
                    r
                },
                None => None,
            };
            assert(file_holds(path@, *read, *decode, r));
            r
        },
    }
}

/// Resolve the build-time install stamp. `explicit` is the override of the
/// environment; `read` gives the text of a file that can be read, and `decode`
/// the stamp that a JSON text is.
pub fn resolve_install_stamp<
    F: Fn(&str) -> Option<String>,
    G: Fn(&str) -> Option<InstallStamp>,
>(
    explicit: Option<&str>,
    resource_dir: Option<&str>,
    exe_dir: Option<&str>,
    is_windows: bool,
    read: &F,
    decode: &G,
) -> (r: Option<InstallStamp>)
    requires
        forall|p: &str| call_requires(*read, (p,)),
        forall|p: &str| call_requires(*decode, (p,)),
    ensures
        is_first_stamp(
            stamp_sources(
                explicit.deep_view(),
                resource_dir.deep_view(),
                exe_dir.deep_view(),
                is_windows,
            ),
            *read,
            *decode,
            r,
        ),
{
    let all = sources(explicit, resource_dir, exe_dir, is_windows);
    let ghost views = all.deep_view();
    let mut i: usize = 0;
    while i < all.len()
        invariant
            i <= all@.len(),
            views == all.deep_view(),
            views == stamp_sources(
                explicit.deep_view(),
                resource_dir.deep_view(),
                exe_dir.deep_view(),
                is_windows,
            ),
            forall|p: &str| call_requires(*read, (p,)),
            forall|p: &str| call_requires(*decode, (p,)),
            forall|j: int| 0 <= j < i ==> holds(#[trigger] views[j], *read, *decode, None),
        decreases all@.len() - i,
    {
        let found = look_into(&all[i], read, decode);
        assert(views[i as int] == all@[i as int].deep_view());
        if found.is_some() {
            return found;
        }
        i = i + 1;
    }
    None
}

/// Where the stamp is looked for. An override that is not blank comes first, as
/// the stamp itself and then as the path of one; the resource directory follows,
/// with `install-stamp.json` in it and then in its `build`; the directory of the
/// program is last. What is not there is not looked in.
pub proof fn an_override_is_looked_at_first(
    value: Seq<char>,
    resources: Seq<char>,
    exe_dir: Seq<char>,
    is_windows: bool,
)
    requires
        !text::is_blank(value),
        paths::is_folder(resources, is_windows),
        paths::is_folder(exe_dir, is_windows),
    ensures
        ({
            let sep = if is_windows {
                "\\"@
            } else {
                "/"@
            };
            let own = seq![
                StampSourceView::Inline(text::trimmed(value)),
                StampSourceView::File(text::trimmed(value)),
            ];
            let bundled = seq![
                StampSourceView::File(resources + sep + "install-stamp.json"@),
                StampSourceView::File(resources + sep + "build"@ + sep + "install-stamp.json"@),
            ];
            let beside = seq![StampSourceView::File(exe_dir + sep + "install-stamp.json"@)];
            &&& stamp_sources(Some(value), Some(resources), Some(exe_dir), is_windows) == own
                + bundled + beside
            &&& stamp_sources(None, Some(resources), Some(exe_dir), is_windows) == bundled + beside
            &&& stamp_sources(Some(value), None, Some(exe_dir), is_windows) == own + beside
            &&& stamp_sources(Some(value), Some(resources), None, is_windows) == own + bundled
            &&& stamp_sources(None, None, None, is_windows).len() == 0
        }),
{
    reveal_strlit("install-stamp.json");
    reveal_strlit("build");
    let sep = if is_windows {
        "\\"@
    } else {
        "/"@
    };
    let name = "install-stamp.json"@;
    paths::a_name_goes_below_its_folder(resources, name, is_windows);
    paths::a_name_goes_below_its_folder(resources, "build"@, is_windows);
    let build = paths::joined(resources, "build"@, is_windows);
    paths::a_name_goes_below_its_folder(build, name, is_windows);
    paths::a_name_goes_below_its_folder(exe_dir, name, is_windows);
    let own = seq![
        StampSourceView::Inline(text::trimmed(value)),
        StampSourceView::File(text::trimmed(value)),
    ];
    let bundled = seq![
        StampSourceView::File(resources + sep + name),
        StampSourceView::File(resources + sep + "build"@ + sep + name),
    ];
    let beside = seq![StampSourceView::File(exe_dir + sep + name)];
    assert(stamp_sources(Some(value), Some(resources), Some(exe_dir), is_windows) =~= own + bundled
        + beside);
    assert(stamp_sources(None, Some(resources), Some(exe_dir), is_windows) =~= bundled + beside);
    assert(stamp_sources(Some(value), None, Some(exe_dir), is_windows) =~= own + beside);
    assert(stamp_sources(Some(value), Some(resources), None, is_windows) =~= own + bundled);
    assert(stamp_sources(None, None, None, is_windows) =~= Seq::<StampSourceView>::empty());
}

/// The first source that holds a stamp decides: a source that surely holds one is
/// passed over only for an earlier one.
pub proof fn no_stamp_is_passed_over<
    F: Fn(&str) -> Option<String>,
    G: Fn(&str) -> Option<InstallStamp>,
>(
    sources: Seq<StampSourceView>,
    read: F,
    decode: G,
    stamp: Option<InstallStamp>,
    i: int,
)
    requires
        is_first_stamp(sources, read, decode, stamp),
        0 <= i < sources.len(),
        !holds(sources[i], read, decode, None),
    ensures
        stamp is Some,
        exists|k: int| 0 <= k <= i && holds(#[trigger] sources[k], read, decode, stamp),
{
    if stamp is None {
        assert(holds(sources[i], read, decode, None));
    } else {
        let k = choose|k: int|
            {
                &&& 0 <= k < sources.len()
                &&& holds(#[trigger] sources[k], read, decode, stamp)
                &&& forall|j: int| 0 <= j < k ==> holds(#[trigger] sources[j], read, decode, None)
            };
        if k > i {
            assert(holds(sources[i], read, decode, None));
        }
    }
}

/// The stamp of a file is what its contents decode to, and a file that cannot be
/// read holds none. The one that is found is held by its source, and no source in
/// front of it holds one.
pub proof fn a_stamp_is_read_from_its_file<
    F: Fn(&str) -> Option<String>,
    G: Fn(&str) -> Option<InstallStamp>,
>(
    path: Seq<char>,
    sources: Seq<StampSourceView>,
    read: F,
    decode: G,
    stamp: Option<InstallStamp>,
    first: Option<InstallStamp>,
)
    requires
        holds(StampSourceView::File(path), read, decode, stamp),
        is_first_stamp(sources, read, decode, first),
    ensures
        (forall|contents: Option<String>| #[trigger]
            reads(read, path, contents) ==> contents is None) ==> stamp is None,
        stamp is Some ==> exists|contents: String| #[trigger]
            reads(read, path, Some(contents)) && installer::decodes(decode, contents@, stamp),
        first is Some ==> exists|i: int|
            {
                &&& 0 <= i < sources.len()
                &&& holds(#[trigger] sources[i], read, decode, first)
                &&& forall|j: int| 0 <= j < i ==> holds(#[trigger] sources[j], read, decode, None)
            },
{
    let contents = choose|contents: Option<String>|
        {
            &&& #[trigger] reads(read, path, contents)
            &&& contents is None ==> stamp is None
            &&& contents is Some ==> installer::decodes(decode, contents->0@, stamp)
        };
    if let Some(text) = contents {
        assert(reads(read, path, Some(text)));
    }
}

} // verus!
