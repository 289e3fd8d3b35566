//! Filesystem commands that the renderer uses for plugin discovery, the
//! workspace picker, and its file manager affordances.
//!
//! Touching the disk is the caller's work: it hands over what it read and does
//! what is decided here. What the platform's path rules say of a path (its
//! parent, its ancestors, its file name) is handed over too.
use crate::commands::platform;
use crate::commands::platform::{CommandLine, Platform};
use crate::paths;
use crate::paths::Host;
use crate::probe;
use crate::text;
use vstd::prelude::*;

verus! {

/// Default cap on a single text read: previews read whole files into the
/// renderer, so an unbounded read would stall the tab.
pub const DEFAULT_READ_TEXT_LIMIT: usize = 4194304;

/// One entry of a directory.
#[derive(Debug, Clone, PartialEq, Eq)]
pub struct DirEntryInfo {
    pub name: String,
    pub path: String,
    pub is_directory: bool,
}

/// What a `DirEntryInfo` says.
#[verifier::ext_equal]
pub struct DirEntryView {
    pub name: Seq<char>,
    pub path: Seq<char>,
    pub is_directory: bool,
}

impl DeepView for DirEntryInfo {
    type V = DirEntryView;

    open spec fn deep_view(&self) -> DirEntryView {
        DirEntryView { name: self.name@, path: self.path@, is_directory: self.is_directory }
    }
}

/// A directory listing.
#[derive(Debug, Clone, PartialEq, Eq)]
pub struct ReadDirResult {
    pub entries: Vec<DirEntryInfo>,
}

/// A text that was read, and whether there was more of it.
#[derive(Debug, Clone, PartialEq, Eq)]
pub struct ReadTextResult {
    pub text: String,
    pub truncated: bool,
}

/// That an action succeeded.
#[derive(Debug, Clone, Copy, PartialEq, Eq, Structural)]
pub struct OkResult {
    pub ok: bool,
}

/// That an action succeeded.
pub fn ok() -> (r: OkResult)
    ensures
        r.ok,
{
    OkResult { ok: true }
}

// ---------------------------------------------------------------------------
// Listings
// ---------------------------------------------------------------------------
/// What a listing is ordered by: the name in lower case.
pub open spec fn sort_key(entry: DirEntryView) -> Seq<char> {
    text::unicode::lowercase(entry.name)
}

/// The entries that are ordered alike under `key`.
pub open spec fn has_key(key: Seq<char>) -> spec_fn(DirEntryView) -> bool {
    |entry: DirEntryView| sort_key(entry) == key
}

/// Whether `listing` is in order.
pub open spec fn is_sorted(listing: Seq<DirEntryView>) -> bool {
    forall|i: int, j: int|
        0 <= i < j < listing.len() ==> text::order::ordered(
            sort_key(#[trigger] listing[i]),
            sort_key(#[trigger] listing[j]),
        )
}

/// Whether `listing` holds the same entries as `entries`, in order, and those
/// that are ordered alike as they came.
pub open spec fn is_stable_sort_of(listing: Seq<DirEntryView>, entries: Seq<DirEntryView>) -> bool {
    &&& is_sorted(listing)
    &&& listing.to_multiset() == entries.to_multiset()
    &&& forall|key: Seq<char>| #[trigger]
        listing.filter(has_key(key)) == entries.filter(has_key(key))
}

proof fn lemma_none_kept(s: Seq<DirEntryView>, keep: spec_fn(DirEntryView) -> bool)
    requires
        forall|i: int| 0 <= i < s.len() ==> !keep(#[trigger] s[i]),
    ensures
        s.filter(keep) == Seq::<DirEntryView>::empty(),
{
    s.lemma_all_neg_filter_empty(keep);
    assert(s.filter(keep) =~= Seq::<DirEntryView>::empty());
}

proof fn lemma_insert(
    listing: Seq<DirEntryView>,
    entries: Seq<DirEntryView>,
    at: int,
    entry: DirEntryView,
)
    requires
        is_stable_sort_of(listing, entries),
        0 <= at <= listing.len(),
        forall|i: int|
            0 <= i < at ==> text::order::ordered(sort_key(#[trigger] listing[i]), sort_key(entry)),
        forall|i: int|
            at <= i < listing.len() ==> !text::order::ordered(
                sort_key(#[trigger] listing[i]),
                sort_key(entry),
            ),
    ensures
        is_stable_sort_of(listing.insert(at, entry), entries.push(entry)),
{
    let after = listing.insert(at, entry);
    let front = listing.subrange(0, at);
    let back = listing.subrange(at, listing.len() as int);
    assert(after =~= front.push(entry) + back);
    assert(listing =~= front + back);
    assert forall|i: int, j: int| 0 <= i < j < after.len() implies text::order::ordered(
        sort_key(#[trigger] after[i]),
        sort_key(#[trigger] after[j]),
    ) by {
        if j < at {
            assert(after[i] == listing[i] && after[j] == listing[j]);
        } else if j == at {
            assert(after[i] == listing[i]);
        } else if i < at {
            assert(after[i] == listing[i] && after[j] == listing[j - 1]);
        } else if i == at {
            assert(after[j] == listing[j - 1]);
            text::order::lemma_total(sort_key(entry), sort_key(listing[j - 1]));
        } else {
            assert(after[i] == listing[i - 1] && after[j] == listing[j - 1]);
        }
    }
    assert forall|key: Seq<char>| #[trigger] after.filter(has_key(key)) == entries.push(
        entry,
    ).filter(has_key(key)) by {
        let keep = has_key(key);
        Seq::filter_distributes_over_add(front.push(entry), back, keep);
        Seq::filter_distributes_over_add(front, back, keep);
        assert(front.push(entry) =~= front + seq![entry]);
        Seq::filter_distributes_over_add(front, seq![entry], keep);
        assert(entries.push(entry) =~= entries + seq![entry]);
        Seq::filter_distributes_over_add(entries, seq![entry], keep);
        assert(listing.filter(keep) == entries.filter(keep));
        if sort_key(entry) == key {
            assert forall|i: int| 0 <= i < back.len() implies !keep(#[trigger] back[i]) by {
                assert(back[i] == listing[at + i]);
                text::order::lemma_reflexive(key);
            }
            lemma_none_kept(back, keep);
            assert(after.filter(keep) =~= entries.push(entry).filter(keep));
        } else {
            lemma_none_kept(seq![entry], keep);
            assert(after.filter(keep) =~= entries.push(entry).filter(keep));
        }
    }
    assert(after.to_multiset() == entries.push(entry).to_multiset()) by {
        broadcast use vstd::seq_lib::group_to_multiset_ensures;

        assert(after.remove(at) =~= listing);
        assert(after.to_multiset().remove(entry) == listing.to_multiset());
        assert(after.to_multiset().count(entry) > 0) by {
            assert(after[at] == entry);
            assert(after.contains(entry));
        }
        assert(after.to_multiset() =~= listing.to_multiset().insert(entry));
        assert(entries.push(entry).to_multiset() =~= entries.to_multiset().insert(entry));
    }
}

/// The position behind the last key that comes before `key` or is equal to it.
fn upper_bound(keys: &Vec<Vec<char>>, key: &Vec<char>) -> (at: usize)
    requires
        forall|i: int, j: int|
            0 <= i < j < keys@.len() ==> text::order::ordered(
                (#[trigger] keys@[i])@,
                (#[trigger] keys@[j])@,
            ),
    ensures
        at <= keys@.len(),
        forall|i: int| 0 <= i < at ==> text::order::ordered((#[trigger] keys@[i])@, key@),
        forall|i: int|
            at <= i < keys@.len() ==> !text::order::ordered((#[trigger] keys@[i])@, key@),
{
    let mut low: usize = 0;
    let mut high: usize = keys.len();
    while low < high
        invariant
            low <= high <= keys@.len(),
            forall|i: int, j: int|
                0 <= i < j < keys@.len() ==> text::order::ordered(
                    (#[trigger] keys@[i])@,
                    (#[trigger] keys@[j])@,
                ),
            forall|i: int| 0 <= i < low ==> text::order::ordered((#[trigger] keys@[i])@, key@),
            forall|i: int|
                high <= i < keys@.len() ==> !text::order::ordered((#[trigger] keys@[i])@, key@),
        decreases high - low,
    {
        let middle: usize = low + (high - low) / 2;
        if text::order::in_order(&keys[middle], key) {
            proof {
                assert forall|i: int| 0 <= i < middle + 1 implies text::order::ordered(
                    (#[trigger] keys@[i])@,
                    key@,
                ) by {
                    if i < middle {
                        text::order::lemma_transitive(
                            keys@[i]@,
                            keys@[middle as int]@,
                            key@,
                        );
                    }
                }
            }
            low = middle + 1;
        } else {
            proof {
                assert forall|i: int| middle <= i < keys@.len() implies !text::order::ordered(
                    (#[trigger] keys@[i])@,
                    key@,
                ) by {
                    if i > middle && text::order::ordered(keys@[i]@, key@) {
                        text::order::lemma_transitive(
                            keys@[middle as int]@,
                            keys@[i]@,
                            key@,
                        );
                    }
                }
            }
            high = middle;
        }
    }
    low
}

/// List a directory: entries in the order of their names in lower case, so that
/// a walk over them does not depend on the order in which a filesystem returns
/// them.
pub fn hermes_fs_read_dir(entries: Vec<DirEntryInfo>) -> (r: ReadDirResult)
    ensures
        is_stable_sort_of(r.entries.deep_view(), entries.deep_view()),
{
    let ghost given = entries.deep_view();
    let mut rest = entries;
    // The entries are taken from the end, so the list is turned round first.
    let mut turned: Vec<DirEntryInfo> = Vec::new();
    let n: usize = rest.len();
    while rest.len() > 0
        invariant
            rest@.len() + turned@.len() == n,
            n == given.len(),
            forall|i: int| 0 <= i < rest@.len() ==> (#[trigger] rest@[i]).deep_view() == given[i],
            forall|i: int|
                0 <= i < turned@.len() ==> (#[trigger] turned@[i]).deep_view() == given[n - 1 - i],
        decreases rest@.len(),
    {
        let ghost last = rest@.len() - 1;
        let entry = rest.pop();
        if let Some(entry) = entry {
            assert(entry.deep_view() == given[last]);
            turned.push(entry);
        }
    }
    let mut keys: Vec<Vec<char>> = Vec::new();
    let mut listing: Vec<DirEntryInfo> = Vec::new();
    proof {
        assert(listing.deep_view() =~= Seq::<DirEntryView>::empty());
        assert(given.take(0) =~= Seq::<DirEntryView>::empty());
    }
    while turned.len() > 0
        invariant
            turned@.len() + listing@.len() == n,
            n == given.len(),
            forall|i: int|
                0 <= i < turned@.len() ==> (#[trigger] turned@[i]).deep_view() == given[n - 1 - i],
            keys@.len() == listing@.len(),
            forall|i: int|
                0 <= i < keys@.len() ==> (#[trigger] keys@[i])@ == sort_key(
                    listing@[i].deep_view(),
                ),
            is_stable_sort_of(listing.deep_view(), given.take(listing@.len() as int)),
        decreases turned@.len(),
    {
        let ghost done = listing@.len() as int;
        let ghost before = listing.deep_view();
        let entry = turned.pop();
        if let Some(entry) = entry {
            proof {
                assert(entry.deep_view() == given[done]);
                assert forall|i: int, j: int| 0 <= i < j < keys@.len() implies text::order::ordered(
                    (#[trigger] keys@[i])@,
                    (#[trigger] keys@[j])@,
                ) by {
                    assert(before[i] == listing@[i].deep_view());
                    assert(before[j] == listing@[j].deep_view());
                }
            }
            let lowered = text::unicode::to_lowercase(entry.name.as_str());
            let key = text::chars_of(lowered.as_str());
            let at: usize = upper_bound(&keys, &key);
            let ghost shown = entry.deep_view();
            proof {
                assert forall|i: int| 0 <= i < at implies text::order::ordered(
                    sort_key(#[trigger] before[i]),
                    sort_key(shown),
                ) by {
                    assert(keys@[i]@ == sort_key(before[i]));
                }
                assert forall|i: int| at <= i < before.len() implies !text::order::ordered(
                    sort_key(#[trigger] before[i]),
                    sort_key(shown),
                ) by {
                    assert(keys@[i]@ == sort_key(before[i]));
                }
                lemma_insert(before, given.take(done), at as int, shown);
                assert(given.take(done + 1) =~= given.take(done).push(shown));
            }
            keys.insert(at, key);
            listing.insert(at, entry);
            proof {
                assert(listing.deep_view() =~= before.insert(at as int, shown));
                assert forall|i: int| 0 <= i < keys@.len() implies (#[trigger] keys@[i])@
                    == sort_key(listing@[i].deep_view()) by {
                    assert(listing.deep_view()[i] == listing@[i].deep_view());
                    if i < at {
                        assert(listing.deep_view()[i] == before[i]);
                    } else if i > at {
                        assert(listing.deep_view()[i] == before[i - 1]);
                    }
                }
            }
        }
    }
    proof {
        assert(given.take(n as int) =~= given);
    }
    ReadDirResult { entries: listing }
}

/// Whether entries that are ordered alike are the same entry.
pub open spec fn alike_only_if_equal(entries: Seq<DirEntryView>) -> bool {
    forall|a: DirEntryView, b: DirEntryView|
        entries.contains(a) && entries.contains(b) && #[trigger] sort_key(a) == #[trigger] sort_key(
            b,
        ) ==> a == b
}

proof fn lemma_sorted_alike(first: Seq<DirEntryView>, second: Seq<DirEntryView>)
    requires
        is_sorted(first),
        is_sorted(second),
        first.to_multiset() == second.to_multiset(),
        alike_only_if_equal(first),
    ensures
        first == second,
    decreases first.len(),
{
    broadcast use vstd::seq_lib::group_to_multiset_ensures;

    assert(first.len() == first.to_multiset().len());
    assert(second.len() == second.to_multiset().len());
    if first.len() == 0 {
        assert(first =~= second);
    } else {
        let a = first[0];
        let b = second[0];
        assert(first.contains(a));
        assert(second.contains(b));
        assert(first.to_multiset().count(a) > 0);
        assert(second.to_multiset().count(b) > 0);
        assert(second.contains(a));
        assert(first.contains(b));
        let i = choose|i: int| 0 <= i < second.len() && second[i] == a;
        let j = choose|j: int| 0 <= j < first.len() && first[j] == b;
        text::order::lemma_reflexive(sort_key(a));
        text::order::lemma_reflexive(sort_key(b));
        assert(text::order::ordered(sort_key(second[0]), sort_key(second[i])));
        assert(text::order::ordered(sort_key(first[0]), sort_key(first[j])));
        text::order::lemma_antisymmetric(sort_key(a), sort_key(b));
        assert(a == b);
        let rest = first.drop_first();
        let other = second.drop_first();
        assert(rest =~= first.remove(0));
        assert(other =~= second.remove(0));
        assert forall|x: DirEntryView, y: DirEntryView|
            rest.contains(x) && rest.contains(y) && #[trigger] sort_key(x) == #[trigger] sort_key(
                y,
            ) implies x == y by {
            let k = choose|k: int| 0 <= k < rest.len() && rest[k] == x;
            let l = choose|l: int| 0 <= l < rest.len() && rest[l] == y;
            assert(first[k + 1] == x);
            assert(first[l + 1] == y);
        }
        assert forall|k: int, l: int| 0 <= k < l < rest.len() implies text::order::ordered(
            sort_key(#[trigger] rest[k]),
            sort_key(#[trigger] rest[l]),
        ) by {
            assert(rest[k] == first[k + 1] && rest[l] == first[l + 1]);
        }
        assert forall|k: int, l: int| 0 <= k < l < other.len() implies text::order::ordered(
            sort_key(#[trigger] other[k]),
            sort_key(#[trigger] other[l]),
        ) by {
            assert(other[k] == second[k + 1] && other[l] == second[l + 1]);
        }
        lemma_sorted_alike(rest, other);
        assert(first =~= seq![a] + rest);
        assert(second =~= seq![b] + other);
    }
}

/// A listing does not depend on the order in which a filesystem returns the
/// entries, as long as no two names differ in case alone.
pub proof fn a_listing_depends_on_its_entries_alone(
    first: Seq<DirEntryView>,
    second: Seq<DirEntryView>,
    first_listing: Seq<DirEntryView>,
    second_listing: Seq<DirEntryView>,
)
    requires
        first.to_multiset() == second.to_multiset(),
        alike_only_if_equal(first),
        is_stable_sort_of(first_listing, first),
        is_stable_sort_of(second_listing, second),
    ensures
        first_listing == second_listing,
{
    assert(alike_only_if_equal(first_listing)) by {
        broadcast use vstd::seq_lib::group_to_multiset_ensures;

        assert forall|a: DirEntryView, b: DirEntryView|
            first_listing.contains(a) && first_listing.contains(b) && #[trigger] sort_key(a)
                == #[trigger] sort_key(b) implies a == b by {
            assert(first_listing.to_multiset().count(a) > 0);
            assert(first_listing.to_multiset().count(b) > 0);
            assert(first.contains(a));
            assert(first.contains(b));
        }
    }
    lemma_sorted_alike(first_listing, second_listing);
}

// ---------------------------------------------------------------------------
// Reading
// ---------------------------------------------------------------------------
/// The bytes of a text read that are shown.
pub open spec fn shown_bytes(bytes: Seq<u8>, max_bytes: Option<usize>) -> Seq<u8> {
    let limit = match max_bytes {
        Some(limit) => limit,
        None => DEFAULT_READ_TEXT_LIMIT,
    };
    if bytes.len() > limit {
        bytes.take(limit as int)
    } else {
        bytes
    }
}

/// The text of a file, cut at `max_bytes` or the default cap.
pub fn hermes_fs_read_text(bytes: &[u8], max_bytes: Option<usize>) -> (r: ReadTextResult)
    ensures
        r.text@ == text::unicode::lossy(shown_bytes(bytes@, max_bytes)),
        r.truncated == (shown_bytes(bytes@, max_bytes).len() < bytes@.len()),
{
    let (shown, truncated) = cut_bytes(bytes, max_bytes);
    ReadTextResult { text: text::unicode::from_utf8_lossy(shown), truncated }
}

/// The bytes that are shown of a file, and whether there are more.
pub fn cut_bytes(bytes: &[u8], max_bytes: Option<usize>) -> (r: (&[u8], bool))
    ensures
        r.0@ == shown_bytes(bytes@, max_bytes),
        r.1 == (shown_bytes(bytes@, max_bytes).len() < bytes@.len()),
{
    let limit: usize = match max_bytes {
        Some(limit) => limit,
        None => DEFAULT_READ_TEXT_LIMIT,
    };
    if bytes.len() > limit {
        let shown = vstd::slice::slice_subrange(bytes, 0, limit);
        proof {
            assert(shown@ =~= bytes@.take(limit as int));
        }
        (shown, true)
    } else {
        (bytes, false)
    }
}

/// What the user is told where an action on a path failed.
pub fn cannot(action: &str, path: &str, error: &str) -> (r: String)
    ensures
        r@ == "cannot "@ + action@ + " "@ + path@ + ": "@ + error@,
{
    let head = text::cat4("cannot ", action, " ", path);
    text::cat3(head.as_str(), ": ", error)
}

/// The directories in which a repository is looked for, given a path, the
/// directories above it and whether it is a directory: a path that is no
/// directory is passed over, unless nothing is above it.
pub open spec fn searched_dirs(ancestors: Seq<Seq<char>>, is_dir: bool) -> Seq<Seq<char>> {
    if !is_dir && ancestors.len() > 1 {
        ancestors.skip(1)
    } else {
        ancestors
    }
}

/// Walk up from a path looking for a `.git` entry. `ancestors` is the path and
/// the directories above it, nearest first. The result is the directory that
/// contains the entry, or `None` outside any repository.
pub fn hermes_fs_git_root<F: Fn(&str) -> bool>(
    ancestors: &Vec<String>,
    is_dir: bool,
    is_windows: bool,
    present: &F,
) -> (r: Option<String>)
    requires
        forall|p: &str| call_requires(*present, (p,)),
    ensures
        ({
            let dirs = searched_dirs(ancestors.deep_view(), is_dir);
            match r {
                Some(root) => exists|i: int|
                    {
                        &&& 0 <= i < dirs.len()
                        &&& #[trigger] dirs[i] == root@
                        &&& probe::says(*present, paths::joined(dirs[i], ".git"@, is_windows), true)
                        &&& forall|j: int|
                            0 <= j < i ==> probe::says(
                                *present,
                                paths::joined(#[trigger] dirs[j], ".git"@, is_windows),
                                false,
                            )
                    },
                None => forall|j: int|
                    0 <= j < dirs.len() ==> probe::says(
                        *present,
                        paths::joined(#[trigger] dirs[j], ".git"@, is_windows),
                        false,
                    ),
            }
        }),
{
    let ghost all = ancestors.deep_view();
    let ghost dirs = searched_dirs(all, is_dir);
    let first: usize = if !is_dir && ancestors.len() > 1 {
        1
    } else {
        0
    };
    let mut i: usize = first;
    while i < ancestors.len()
        invariant
            first <= i <= ancestors@.len(),
            all == ancestors.deep_view(),
            dirs == searched_dirs(ancestors.deep_view(), is_dir),
            dirs =~= all.skip(first as int),
            forall|p: &str| call_requires(*present, (p,)),
            forall|j: int|
                0 <= j < i - first ==> probe::says(
                    *present,
                    paths::joined(#[trigger] dirs[j], ".git"@, is_windows),
                    false,
                ),
        decreases ancestors@.len() - i,
    {
        let entry = paths::join(ancestors[i].as_str(), ".git", is_windows);
        let asked = entry.as_str();
        let found = present(asked);
        proof {
            assert(dirs[i - first] == ancestors@[i as int]@);
            assert(call_ensures(*present, (asked,), found));
            assert(probe::says(
                *present,
                paths::joined(dirs[i - first], ".git"@, is_windows),
                found,
            ));
        }
        if found {
            return Some(ancestors[i].clone());
        }
        i = i + 1;
    }
    None
}

/// The directory of the desktop plugins.
pub fn hermes_fs_desktop_plugins_root(host: &Host) -> (r: String)
    ensures
        r@ == host.below_home("desktop-plugins"@),
{
    paths::join(paths::hermes_home(host).as_str(), "desktop-plugins", host.is_windows)
}

/// The directory of the logs.
pub fn hermes_fs_logs_root(host: &Host) -> (r: String)
    ensures
        r@ == host.below_home("logs"@),
{
    paths::logs_dir(host)
}

/// The directory of the agent plugins.
pub fn hermes_fs_agent_plugins_root(host: &Host) -> (r: String)
    ensures
        r@ == host.below_home("plugins"@),
{
    paths::join(paths::hermes_home(host).as_str(), "plugins", host.is_windows)
}

// ---------------------------------------------------------------------------
// The file manager
// ---------------------------------------------------------------------------
/// What reveals a path in the platform's file manager: where the platform
/// cannot select it, the directory is opened that it is or lies in.
pub open spec fn reveal_call(
    target: Seq<char>,
    is_dir: bool,
    parent: Option<Seq<char>>,
    host: Platform,
) -> platform::CommandLineView {
    match host {
        Platform::Windows => platform::CommandLineView {
            program: "explorer"@,
            args: seq!["/select,"@ + target],
        },
        Platform::MacOs => platform::CommandLineView {
            program: "open"@,
            args: seq!["-R"@, target],
        },
        Platform::Other => platform::CommandLineView {
            program: "xdg-open"@,
            args: seq![
                if is_dir || parent is None {
                    target
                } else {
                    parent->0
                },
            ],
        },
    }
}

/// What reveals a path in the platform's file manager.
pub fn hermes_fs_reveal(
    target: &str,
    is_dir: bool,
    parent: Option<&str>,
    host: Platform,
) -> (r: CommandLine)
    ensures
        r@ == reveal_call(target@, is_dir, parent.deep_view(), host),
{
    match host {
        Platform::Windows => platform::with_one_arg("explorer", text::cat("/select,", target)),
        Platform::MacOs => {
            let mut args: Vec<String> = Vec::new();
            args.push("-R".to_owned());
            args.push(target.to_owned());
            proof {
                assert(args.deep_view() =~= seq!["-R"@, target@]);
            }
            CommandLine { program: "open".to_owned(), args }
        },
        Platform::Other => {
            let dir = match parent {
                Some(parent) => if is_dir {
                    target
                } else {
                    parent
                },
                None => target,
            };
            platform::with_one_arg("xdg-open", dir.to_owned())
        },
    }
}

/// What opens a directory in the platform's file manager.
pub fn hermes_fs_open_dir(dir: &str, host: Platform) -> (r: CommandLine)
    ensures
        r@.args == seq![dir@],
        r@.program == (match host {
            Platform::Windows => "explorer"@,
            Platform::MacOs => "open"@,
            Platform::Other => "xdg-open"@,
        }),
{
    let program = match host {
        Platform::Windows => "explorer",
        Platform::MacOs => "open",
        Platform::Other => "xdg-open",
    };
    platform::with_one_arg(program, dir.to_owned())
}

/// Whether a text can be a file name: it says something and holds no separator.
pub open spec fn is_file_name(name: Seq<char>) -> bool {
    name.len() > 0 && !name.contains('/') && !name.contains('\\')
}

/// Where a file is renamed to, or why it cannot be. A name with a separator
/// would let a file leave the folder that the user is looking at. `parent` is
/// the folder of `target`, where it has one.
pub fn hermes_fs_rename(
    target: &str,
    parent: Option<&str>,
    new_name: &str,
    is_windows: bool,
) -> (r: Result<String, String>)
    ensures
        match r {
            Ok(destination) => is_file_name(text::trimmed(new_name@)) && parent is Some
                && destination@ == paths::joined(
                parent->0@,
                text::trimmed(new_name@),
                is_windows,
            ),
            Err(error) => if !is_file_name(text::trimmed(new_name@)) {
                error@ == "invalid file name: "@ + new_name@
            } else {
                parent is None && error@ == target@ + " has no parent directory"@
            },
        },
{
    let name = text::trim(new_name);
    if text::is_empty(name.as_str()) || text::scan::has_char(name.as_str(), '/')
        || text::scan::has_char(name.as_str(), '\\') {
        return Err(text::cat("invalid file name: ", new_name));
    }
    match parent {
        None => Err(text::cat(target, " has no parent directory")),
        Some(parent) => Ok(paths::join(parent, name.as_str(), is_windows)),
    }
}

proof fn lemma_one_component(name: Seq<char>, i: int)
    requires
        is_file_name(name),
        0 <= i <= name.len(),
    ensures
        paths::component_end(name, i, false) == name.len(),
    decreases name.len() - i,
{
    if i < name.len() {
        assert(name.contains(name[i]));
        lemma_one_component(name, i + 1);
    }
}

/// A renamed file stays in its folder: its new path is the folder and one name.
/// Left out are a name that begins with a drive letter and, where the folder is
/// verbatim, the names `.` and `..`.
pub proof fn a_renamed_file_stays_in_its_folder(
    parent: Seq<char>,
    name: Seq<char>,
    is_windows: bool,
)
    requires
        is_file_name(name),
        !(is_windows && paths::has_drive(name)),
        is_windows && paths::is_verbatim(parent) ==> name != "."@ && name != ".."@,
    ensures
        ({
            let renamed = paths::joined(parent, name, is_windows);
            if is_windows && paths::is_verbatim(parent) {
                let start = paths::behind_root(parent);
                renamed == paths::verbatim_path(
                    parent.take(paths::prefix_len(parent)),
                    paths::prefix_len(parent) < start,
                    paths::components(parent, start, true).push(name),
                )
            } else {
                renamed == parent + name || renamed == parent + seq![paths::separator(is_windows)]
                    + name
            }
        }),
        !paths::is_rooted(name, is_windows),
{
    assert(name.contains(name[0]));
    if is_windows && paths::is_verbatim(parent) {
        lemma_one_component(name, 0);
        let parts = paths::components(name, 0, false);
        assert(paths::components(name, name.len() as int + 1, false).len() == 0);
        assert(name.subrange(0, name.len() as int) =~= name);
        assert(parts =~= seq![name]);
        let folders = paths::components(parent, paths::behind_root(parent), true);
        assert(parts.drop_last().len() == 0);
        assert(paths::walked(folders, parts.drop_last()) == folders);
        assert(paths::walked(folders, parts) == folders.push(name));
    }
}

// ---------------------------------------------------------------------------
// The trash
// ---------------------------------------------------------------------------
/// A text inside a single-quoted PowerShell literal: every quote is doubled.
pub open spec fn quoted(s: Seq<char>) -> Seq<char>
    decreases s.len(),
{
    if s.len() == 0 {
        Seq::empty()
    } else if s.last() == '\'' {
        quoted(s.drop_last()) + seq!['\'', '\'']
    } else {
        quoted(s.drop_last()).push(s.last())
    }
}

/// What a single-quoted PowerShell literal stands for.
pub open spec fn unquoted(s: Seq<char>) -> Seq<char>
    decreases s.len(),
{
    if s.len() == 0 {
        Seq::empty()
    } else if s.len() >= 2 && s.last() == '\'' && s[s.len() - 2] == '\'' {
        unquoted(s.take(s.len() - 2)).push('\'')
    } else {
        unquoted(s.drop_last()).push(s.last())
    }
}

/// Quoting is undone: whatever a path is called, the literal stands for it.
pub proof fn quoting_is_undone(s: Seq<char>)
    ensures
        unquoted(quoted(s)) == s,
    decreases s.len(),
{
    if s.len() > 0 {
        let rest = s.drop_last();
        quoting_is_undone(rest);
        let q = quoted(s);
        if s.last() == '\'' {
            assert(q.take(q.len() - 2) =~= quoted(rest));
        } else {
            assert(q.drop_last() =~= quoted(rest));
        }
        assert(unquoted(q) =~= s);
    } else {
        assert(unquoted(quoted(s)) =~= s);
    }
}

fn quote(s: &str) -> (r: String)
    ensures
        r@ == quoted(s@),
{
    let chars = text::chars_of(s);
    let mut out = String::new();
    let mut i: usize = 0;
    proof {
        assert(chars@.take(0) =~= Seq::<char>::empty());
    }
    while i < chars.len()
        invariant
            i <= chars@.len(),
            chars@ == s@,
            out@ == quoted(chars@.take(i as int)),
        decreases chars@.len() - i,
    {
        let c = chars[i];
        let ghost before = out@;
        proof {
            assert(chars@.take(i + 1).drop_last() =~= chars@.take(i as int));
            assert(chars@.take(i + 1).last() == c);
        }
        if c == '\'' {
            out.push('\'');
        }
        out.push(c);
        proof {
            if c == '\'' {
                assert(out@ =~= before + seq!['\'', '\'']);
            }
        }
        i = i + 1;
    }
    proof {
        assert(chars@.take(i as int) =~= chars@);
    }
    out
}

/// What an attempt to move something to the trash waits for.
#[derive(Debug, Clone, Copy, PartialEq, Eq, Structural)]
pub enum TrashPhase {
    /// The recycle bin was asked to take a file.
    RecycleFile,
    /// The recycle bin was asked to take a directory.
    RecycleDirectory,
    /// The trash program was run.
    TrashProgram,
    /// The file was moved to the trash directory.
    Move,
}

/// What the caller is to do next.
#[derive(Debug, Clone, PartialEq, Eq)]
pub enum TrashStep {
    /// Run this program, and say how it ended.
    Run { command: CommandLine, phase: TrashPhase },
    /// Create the trash directory if need be, and find a free name in it.
    FindName { trash: String, file_name: String },
    /// It is gone, and this goes to the log.
    Done { log_line: Option<String> },
    Failed { error: String },
}

/// What a `TrashStep` says.
#[verifier::ext_equal]
pub enum TrashStepView {
    Run { command: platform::CommandLineView, phase: TrashPhase },
    FindName { trash: Seq<char>, file_name: Seq<char> },
    Done { log_line: Option<Seq<char>> },
    Failed { error: Seq<char> },
}

impl View for TrashStep {
    type V = TrashStepView;

    open spec fn view(&self) -> TrashStepView {
        match self {
            TrashStep::Run { command, phase } => TrashStepView::Run {
                command: command@,
                phase: *phase,
            },
            TrashStep::FindName { trash, file_name } => TrashStepView::FindName {
                trash: trash@,
                file_name: file_name@,
            },
            TrashStep::Done { log_line } => TrashStepView::Done {
                log_line: log_line.deep_view(),
            },
            TrashStep::Failed { error } => TrashStepView::Failed { error: error@ },
        }
    }
}

/// What asks the recycle bin to take a file or a directory.
pub open spec fn recycle_call(target: Seq<char>, directory: bool) -> platform::CommandLineView {
    platform::CommandLineView {
        program: "powershell"@,
        args: seq![
            "-NoProfile"@,
            "-NonInteractive"@,
            "-Command"@,
            "Add-Type -AssemblyName Microsoft.VisualBasic; [Microsoft.VisualBasic.FileIO.FileSystem]::"@
                + (if directory {
                "DeleteDirectory"@
            } else {
                "DeleteFile"@
            }) + "('"@ + quoted(target) + "','OnlyErrorDialogs','SendToRecycleBin')"@,
        ],
    }
}

fn recycle(target: &str, directory: bool) -> (r: CommandLine)
    ensures
        r@ == recycle_call(target@, directory),
{
    let verb = if directory {
        "DeleteDirectory"
    } else {
        "DeleteFile"
    };
    let escaped = quote(target);
    let script = text::cat5(
        "Add-Type -AssemblyName Microsoft.VisualBasic; [Microsoft.VisualBasic.FileIO.FileSystem]::",
        verb,
        "('",
        escaped.as_str(),
        "','OnlyErrorDialogs','SendToRecycleBin')",
    );
    let ghost shown = script@;
    let mut args: Vec<String> = Vec::new();
    args.push("-NoProfile".to_owned());
    args.push("-NonInteractive".to_owned());
    args.push("-Command".to_owned());
    args.push(script);
    proof {
        assert(args.deep_view() =~= seq!["-NoProfile"@, "-NonInteractive"@, "-Command"@, shown]);
    }
    CommandLine { program: "powershell".to_owned(), args }
}

/// How something is moved to the trash: what is already gone needs nothing, and
/// each platform has its own way.
pub open spec fn trash_start(
    target: Seq<char>,
    present: bool,
    file_name: Option<Seq<char>>,
    home: Seq<char>,
    host: Platform,
) -> TrashStepView {
    if !present {
        TrashStepView::Done { log_line: None }
    } else {
        match host {
            Platform::Windows => TrashStepView::Run {
                command: recycle_call(target, false),
                phase: TrashPhase::RecycleFile,
            },
            Platform::MacOs => match file_name {
                Some(name) => TrashStepView::FindName {
                    trash: paths::joined(home, ".Trash"@, false),
                    file_name: name,
                },
                None => TrashStepView::Failed { error: target + " has no file name"@ },
            },
            Platform::Other => TrashStepView::Run {
                command: platform::CommandLineView {
                    program: "gio"@,
                    args: seq!["trash"@, "--"@, target],
                },
                phase: TrashPhase::TrashProgram,
            },
        }
    }
}

/// Begin to move a file or a directory to the platform's trash, from which it
/// can be taken back. `file_name` is the last component of `target`, where it
/// has one.
pub fn hermes_fs_trash(
    target: &str,
    present: bool,
    file_name: Option<&str>,
    home: &str,
    host: Platform,
) -> (r: TrashStep)
    ensures
        r@ == trash_start(target@, present, file_name.deep_view(), home@, host),
{
    if !present {
        return TrashStep::Done { log_line: None };
    }
    match host {
        Platform::Windows => TrashStep::Run {
            command: recycle(target, false),
            phase: TrashPhase::RecycleFile,
        },
        Platform::MacOs => match file_name {
            Some(name) => TrashStep::FindName {
                trash: paths::join(home, ".Trash", false),
                file_name: name.to_owned(),
            },
            None => TrashStep::Failed { error: text::cat(target, " has no file name") },
        },
        Platform::Other => {
            let mut args: Vec<String> = Vec::new();
            args.push("trash".to_owned());
            args.push("--".to_owned());
            args.push(target.to_owned());
            proof {
                assert(args.deep_view() =~= seq!["trash"@, "--"@, target@]);
            }
            TrashStep::Run {
                command: CommandLine { program: "gio".to_owned(), args },
                phase: TrashPhase::TrashProgram,
            }
        },
    }
}

/// How an attempt ended.
#[derive(Debug, Clone, PartialEq, Eq)]
pub enum TrashOutcome {
    /// It ended, well or badly.
    Ended { success: bool },
    /// It could not be made, for this reason.
    Failed { error: String },
}

/// The name of the trash that a failure report uses.
pub open spec fn trash_place(phase: TrashPhase) -> Seq<char> {
    match phase {
        TrashPhase::RecycleFile => "the recycle bin"@,
        TrashPhase::RecycleDirectory => "the recycle bin"@,
        TrashPhase::TrashProgram => "the trash"@,
        TrashPhase::Move => "Trash"@,
    }
}

/// What follows an attempt: a target that is no file is offered once more as a
/// directory.
pub open spec fn trash_next(
    target: Seq<char>,
    phase: TrashPhase,
    outcome: TrashOutcome,
) -> TrashStepView {
    match outcome {
        TrashOutcome::Failed { error } => TrashStepView::Failed {
            error: "cannot move "@ + target + " to "@ + trash_place(phase) + ": "@ + error@,
        },
        TrashOutcome::Ended { success } => if success {
            TrashStepView::Done { log_line: Some("trashed "@ + target) }
        } else if phase == TrashPhase::RecycleFile {
            TrashStepView::Run {
                command: recycle_call(target, true),
                phase: TrashPhase::RecycleDirectory,
            }
        } else {
            TrashStepView::Failed {
                error: "cannot move "@ + target + " to "@ + trash_place(phase),
            }
        },
    }
}

/// Decide what follows an attempt to move `target` to the trash.
pub fn after_trash(target: &str, phase: TrashPhase, outcome: &TrashOutcome) -> (r: TrashStep)
    ensures
        r@ == trash_next(target@, phase, *outcome),
{
    let place = match phase {
        TrashPhase::RecycleFile => "the recycle bin",
        TrashPhase::RecycleDirectory => "the recycle bin",
        TrashPhase::TrashProgram => "the trash",
        TrashPhase::Move => "Trash",
    };
    match outcome {
        TrashOutcome::Failed { error } => {
            let head = text::cat4("cannot move ", target, " to ", place);
            TrashStep::Failed { error: text::cat3(head.as_str(), ": ", error.as_str()) }
        },
        TrashOutcome::Ended { success } => {
            if *success {
                TrashStep::Done { log_line: Some(text::cat("trashed ", target)) }
            } else if phase == TrashPhase::RecycleFile {
                TrashStep::Run {
                    command: recycle(target, true),
                    phase: TrashPhase::RecycleDirectory,
                }
            } else {
                TrashStep::Failed { error: text::cat4("cannot move ", target, " to ", place) }
            }
        },
    }
}

/// The `n`-th name that is tried in the trash directory: the name itself, then
/// the name with a number from 2.
pub open spec fn trash_name(trash: Seq<char>, file_name: Seq<char>, n: int) -> Seq<char> {
    paths::joined(
        trash,
        if n <= 1 {
            file_name
        } else {
            file_name + " "@ + text::number::decimal(n as nat)
        },
        false,
    )
}

/// The highest number that is tried.
pub const MAX_TRASH_NUMBER: u64 = 2147483647;

/// The first name in the trash directory that is free, so that nothing in it is
/// overwritten; `None` where every number up to the highest is taken.
pub fn free_trash_name<F: Fn(&str) -> bool>(trash: &str, file_name: &str, present: &F) -> (r: Option<
    String,
>)
    requires
        forall|p: &str| call_requires(*present, (p,)),
    ensures
        match r {
            Some(path) => exists|n: int|
                {
                    &&& 1 <= n <= MAX_TRASH_NUMBER
                    &&& path@ == #[trigger] trash_name(trash@, file_name@, n)
                    &&& probe::says(*present, path@, false)
                    &&& forall|m: int|
                        1 <= m < n ==> probe::says(
                            *present,
                            #[trigger] trash_name(trash@, file_name@, m),
                            true,
                        )
                },
            None => forall|m: int|
                1 <= m <= MAX_TRASH_NUMBER ==> probe::says(
                    *present,
                    #[trigger] trash_name(trash@, file_name@, m),
                    true,
                ),
        },
{
    let mut n: u64 = 1;
    while n <= MAX_TRASH_NUMBER
        invariant
            1 <= n <= MAX_TRASH_NUMBER + 1,
            forall|p: &str| call_requires(*present, (p,)),
            forall|m: int|
                1 <= m < n ==> probe::says(
                    *present,
                    #[trigger] trash_name(trash@, file_name@, m),
                    true,
                ),
        decreases MAX_TRASH_NUMBER + 1 - n,
    {
        let name = if n == 1 {
            file_name.to_owned()
        } else {
            let digits = text::number::write_decimal(n);
            text::cat3(file_name, " ", digits.as_str())
        };
        let path = paths::join(trash, name.as_str(), false);
        let asked = path.as_str();
        let taken = present(asked);
        proof {
            assert(path@ == trash_name(trash@, file_name@, n as int));
            assert(call_ensures(*present, (asked,), taken));
            assert(probe::says(*present, path@, taken));
        }
        if !taken {
            return Some(path);
        }
        n = n + 1;
    }
    None
}

/// An attempt is repeated at most once, and a failure never counts as done.
pub proof fn trashing_ends(target: Seq<char>, phase: TrashPhase, outcome: TrashOutcome)
    ensures
        trash_next(target, phase, outcome) matches TrashStepView::Run { phase: next, .. } ==> phase
            == TrashPhase::RecycleFile && next == TrashPhase::RecycleDirectory,
        trash_next(target, phase, outcome) is Done <==> (outcome matches TrashOutcome::Ended {
            success,
        } && success),
        !(trash_next(target, phase, outcome) is FindName),
{
}

// ---------------------------------------------------------------------------
// Laws
// ---------------------------------------------------------------------------
/// A listing is ordered by the names in lower case, holds each entry as often as
/// the directory does, and leaves entries whose names differ in case alone as they
/// came.
pub proof fn a_listing_is_ordered_by_name(
    listing: Seq<DirEntryView>,
    entries: Seq<DirEntryView>,
    key: Seq<char>,
)
    requires
        is_stable_sort_of(listing, entries),
    ensures
        forall|i: int, j: int|
            0 <= i < j < listing.len() ==> text::order::ordered(
                text::unicode::lowercase((#[trigger] listing[i]).name),
                text::unicode::lowercase((#[trigger] listing[j]).name),
            ),
        listing.to_multiset() == entries.to_multiset(),
        listing.filter(|entry: DirEntryView| text::unicode::lowercase(entry.name) == key)
            == entries.filter(|entry: DirEntryView| text::unicode::lowercase(entry.name) == key),
{
    let alike = |entry: DirEntryView| text::unicode::lowercase(entry.name) == key;
    assert(alike =~= has_key(key));
    assert(listing.filter(has_key(key)) == entries.filter(has_key(key)));
}

/// A read shows the beginning of a file: all of it within the limit, which is four
/// mebibytes where none is asked for, and else as much as the limit allows.
pub proof fn a_read_shows_the_beginning(bytes: Seq<u8>, max_bytes: Option<usize>)
    ensures
        ({
            let limit = if max_bytes is Some {
                max_bytes->0 as int
            } else {
                4194304
            };
            let shown = shown_bytes(bytes, max_bytes);
            &&& shown.is_prefix_of(bytes)
            &&& shown.len() == if bytes.len() <= limit {
                bytes.len() as int
            } else {
                limit
            }
        }),
{
}

/// A repository is looked for from a directory upwards: from the path itself where
/// it is one, and else from what is above it, if anything is.
pub proof fn a_repository_is_looked_for_upwards(path: Seq<char>, above: Seq<Seq<char>>)
    ensures
        searched_dirs(seq![path] + above, true) == seq![path] + above,
        above.len() > 0 ==> searched_dirs(seq![path] + above, false) == above,
        searched_dirs(seq![path], false) == seq![path],
{
    let all = seq![path] + above;
    if above.len() > 0 {
        assert(all.skip(1) =~= above);
    }
}

/// What reveals a path: Explorer and the Finder select it, and elsewhere the
/// directory is opened that it is or lies in.
pub proof fn a_path_is_revealed_where_it_lies(target: Seq<char>, parent: Seq<char>, is_dir: bool)
    ensures
        ({
            let windows = reveal_call(target, is_dir, Some(parent), Platform::Windows);
            let mac = reveal_call(target, is_dir, Some(parent), Platform::MacOs);
            let dir = reveal_call(target, true, Some(parent), Platform::Other);
            let file = reveal_call(target, false, Some(parent), Platform::Other);
            let orphan = reveal_call(target, false, None, Platform::Other);
            &&& windows.program == "explorer"@ && windows.args == seq!["/select,"@ + target]
            &&& mac.program == "open"@ && mac.args == seq!["-R"@, target]
            &&& dir.program == "xdg-open"@ && dir.args == seq![target]
            &&& file.program == "xdg-open"@ && file.args == seq![parent]
            &&& orphan.program == "xdg-open"@ && orphan.args == seq![target]
        }),
{
}

/// A file name is one that says something and leads nowhere else.
pub proof fn a_file_name_leads_nowhere_else(name: Seq<char>)
    ensures
        is_file_name(name) <==> name.len() > 0 && forall|i: int|
            0 <= i < name.len() ==> #[trigger] name[i] != '/' && name[i] != '\\',
{
    if is_file_name(name) {
        assert forall|i: int| 0 <= i < name.len() implies #[trigger] name[i] != '/' && name[i]
            != '\\' by {
            assert(name.contains(name[i]));
        }
    }
}

/// Quoting doubles each quote and leaves everything else, character by character.
pub proof fn quoting_doubles_each_quote(first: Seq<char>, c: char)
    ensures
        quoted(Seq::empty()).len() == 0,
        c != '\'' ==> quoted(first + seq![c]) == quoted(first) + seq![c],
        quoted(first + seq!['\'']) == quoted(first) + seq!['\'', '\''],
{
    assert((first + seq![c]).drop_last() =~= first);
    assert((first + seq!['\'']).drop_last() =~= first);
}

/// The recycle bin is asked for the one target, as a file or as a directory, in a
/// literal that stands for it, and it is asked to keep what it takes.
pub proof fn the_recycle_bin_is_asked_for_the_target(target: Seq<char>)
    ensures
        ({
            let head = "Add-Type -AssemblyName Microsoft.VisualBasic; [Microsoft.VisualBasic.FileIO.FileSystem]::"@;
            let tail = "','OnlyErrorDialogs','SendToRecycleBin')"@;
            let flags = seq!["-NoProfile"@, "-NonInteractive"@, "-Command"@];
            let file = recycle_call(target, false);
            let directory = recycle_call(target, true);
            &&& file.program == "powershell"@ && directory.program == "powershell"@
            &&& file.args == flags.push(head + "DeleteFile"@ + "('"@ + quoted(target) + tail)
            &&& directory.args == flags.push(
                head + "DeleteDirectory"@ + "('"@ + quoted(target) + tail,
            )
            &&& unquoted(quoted(target)) == target
        }),
{
    quoting_is_undone(target);
    let head = "Add-Type -AssemblyName Microsoft.VisualBasic; [Microsoft.VisualBasic.FileIO.FileSystem]::"@;
    let tail = "','OnlyErrorDialogs','SendToRecycleBin')"@;
    let flags = seq!["-NoProfile"@, "-NonInteractive"@, "-Command"@];
    assert(recycle_call(target, false).args =~= flags.push(
        head + "DeleteFile"@ + "('"@ + quoted(target) + tail,
    ));
    assert(recycle_call(target, true).args =~= flags.push(
        head + "DeleteDirectory"@ + "('"@ + quoted(target) + tail,
    ));
}

/// How something is trashed on each platform. What is already gone needs nothing.
/// Windows asks the recycle bin for a file, macOS moves into the trash below the
/// home, and elsewhere the trash program is given the target and nothing that it
/// could take for an option.
pub proof fn each_platform_has_its_trash(
    target: Seq<char>,
    name: Seq<char>,
    home: Seq<char>,
    host: Platform,
)
    ensures
        trash_start(target, false, Some(name), home, host) == (TrashStepView::Done {
            log_line: None,
        }),
        trash_start(target, true, Some(name), home, Platform::Windows) == (TrashStepView::Run {
            command: recycle_call(target, false),
            phase: TrashPhase::RecycleFile,
        }),
        paths::is_folder(home, false) ==> trash_start(
            target,
            true,
            Some(name),
            home,
            Platform::MacOs,
        ) == (TrashStepView::FindName { trash: home + "/"@ + ".Trash"@, file_name: name }),
        trash_start(target, true, None, home, Platform::MacOs) == (TrashStepView::Failed {
            error: target + " has no file name"@,
        }),
        trash_start(target, true, Some(name), home, Platform::Other) == (TrashStepView::Run {
            command: platform::CommandLineView {
                program: "gio"@,
                args: seq!["trash"@, "--"@, target],
            },
            phase: TrashPhase::TrashProgram,
        }),
{
    reveal_strlit(".Trash");
    if paths::is_folder(home, false) {
        paths::a_name_goes_below_its_folder(home, ".Trash"@, false);
    }
}

/// What follows an attempt. A good one is done and logged. A file that the recycle
/// bin did not take is offered as a directory. Anything else failed, and the failure
/// names the target, where it was to go, and the reason if one is known.
pub proof fn a_failed_attempt_names_its_target(
    target: Seq<char>,
    phase: TrashPhase,
    outcome: TrashOutcome,
)
    ensures
        ({
            let next = trash_next(target, phase, outcome);
            let place = if phase == TrashPhase::TrashProgram {
                "the trash"@
            } else if phase == TrashPhase::Move {
                "Trash"@
            } else {
                "the recycle bin"@
            };
            let failed = "cannot move "@ + target + " to "@ + place;
            &&& outcome == (TrashOutcome::Ended { success: true }) ==> next == (
            TrashStepView::Done { log_line: Some("trashed "@ + target) })
            &&& outcome == (TrashOutcome::Ended { success: false }) && phase
                == TrashPhase::RecycleFile ==> next == (TrashStepView::Run {
                command: recycle_call(target, true),
                phase: TrashPhase::RecycleDirectory,
            })
            &&& outcome == (TrashOutcome::Ended { success: false }) && phase
                != TrashPhase::RecycleFile ==> next == (TrashStepView::Failed { error: failed })
            &&& outcome matches TrashOutcome::Failed { error } ==> next == (TrashStepView::Failed {
                error: failed + ": "@ + error@,
            })
        }),
{
}

/// In the trash a file keeps its name where that is free, and else gets a number
/// behind it, from 2 on: no two numbers are the same name.
pub proof fn a_trashed_file_keeps_its_name_or_gets_a_number(
    trash: Seq<char>,
    name: Seq<char>,
    n: int,
    m: int,
)
    requires
        trash.len() > 0,
        trash.last() != '/',
        name.len() > 0,
        name[0] != '/',
        1 <= n,
        1 <= m,
    ensures
        trash_name(trash, name, 1) == trash + "/"@ + name,
        n >= 2 ==> trash_name(trash, name, n) == trash + "/"@ + (name + " "@
            + text::number::decimal(n as nat)),
        n != m ==> trash_name(trash, name, n) != trash_name(trash, name, m),
{
    reveal_strlit("/");
    reveal_strlit(" ");
    paths::posix_paths_join_at_one_slash(trash, name);
    let numbered = name + " "@ + text::number::decimal(n as nat);
    let other = name + " "@ + text::number::decimal(m as nat);
    assert(numbered[0] == name[0] && other[0] == name[0]);
    paths::posix_paths_join_at_one_slash(trash, numbered);
    paths::posix_paths_join_at_one_slash(trash, other);
    text::number::value_undoes_decimal(n as nat);
    text::number::value_undoes_decimal(m as nat);
    if n != m {
        let k = (trash.len() + 1) as int;
        let a = trash_name(trash, name, n);
        let b = trash_name(trash, name, m);
        let d = k + name.len() + 1;
        if n >= 2 {
            assert(a.skip(d) =~= text::number::decimal(n as nat));
        }
        if m >= 2 {
            assert(b.skip(d) =~= text::number::decimal(m as nat));
        }
    }
}

// ---------------------------------------------------------------------------
// Laws of the operations themselves
// ---------------------------------------------------------------------------
/// A file is renamed within its folder: the new path is its parent's with the new
/// name, without the white space around it; and a name that leads elsewhere is
/// refused.
pub proof fn a_file_is_renamed_within_its_folder(
    target: &str,
    parent: &str,
    new_name: &str,
    is_windows: bool,
    r: Result<String, String>,
    orphan: Result<String, String>,
)
    requires
        call_ensures(hermes_fs_rename, (target, Some(parent), new_name, is_windows), r),
        call_ensures(hermes_fs_rename, (target, None::<&str>, new_name, is_windows), orphan),
    ensures
        ({
            let name = text::trimmed(new_name@);
            &&& r is Ok <==> is_file_name(name)
            &&& r matches Ok(path) ==> path@ == paths::joined(parent@, name, is_windows)
            &&& r matches Err(error) ==> error@ == "invalid file name: "@ + new_name@
            &&& orphan is Err
            &&& is_file_name(name) ==> orphan->Err_0@ == target@ + " has no parent directory"@
            &&& name.contains('/') || name.contains('\\') || name.len() == 0 ==> r is Err
        }),
{
    a_file_name_leads_nowhere_else(text::trimmed(new_name@));
}

/// The root of a repository is the nearest of the folders that holds a `.git`.
pub proof fn the_nearest_repository_is_found<F: Fn(&str) -> bool>(
    ancestors: Vec<String>,
    is_dir: bool,
    is_windows: bool,
    present: F,
    r: Option<String>,
    near: int,
)
    requires
        call_ensures(hermes_fs_git_root::<F>, (&ancestors, is_dir, is_windows, &present), r),
        (if is_dir {
            0
        } else {
            1int
        }) <= near < ancestors@.len(),
        !probe::says(present, paths::joined(ancestors@[near]@, ".git"@, is_windows), false),
    ensures
        r is Some,
        exists|i: int|
            {
                &&& 0 <= i <= near
                &&& #[trigger] ancestors@[i]@ == r->0@
                &&& !is_dir ==> i >= 1
                &&& probe::says(present, paths::joined(r->0@, ".git"@, is_windows), true)
            },
{
    let all = ancestors.deep_view();
    let dirs = searched_dirs(all, is_dir);
    let shift = if is_dir {
        0
    } else {
        1int
    };
    assert(dirs =~= all.skip(shift));
    assert(dirs[near - shift] == ancestors@[near]@);
    let i = choose|i: int|
        {
            &&& 0 <= i < dirs.len()
            &&& #[trigger] dirs[i] == r->0@
            &&& probe::says(present, paths::joined(dirs[i], ".git"@, is_windows), true)
            &&& forall|j: int|
                0 <= j < i ==> probe::says(
                    present,
                    paths::joined(#[trigger] dirs[j], ".git"@, is_windows),
                    false,
                )
        };
    assert(ancestors@[i + shift]@ == dirs[i]);
}

/// A folder is opened by the platform's own program.
pub proof fn each_platform_opens_a_folder(
    dir: &str,
    windows: CommandLine,
    mac: CommandLine,
    other: CommandLine,
)
    requires
        call_ensures(hermes_fs_open_dir, (dir, Platform::Windows), windows),
        call_ensures(hermes_fs_open_dir, (dir, Platform::MacOs), mac),
        call_ensures(hermes_fs_open_dir, (dir, Platform::Other), other),
    ensures
        windows.program@ == "explorer"@ && windows.args.deep_view() == seq![dir@],
        mac.program@ == "open"@ && mac.args.deep_view() == seq![dir@],
        other.program@ == "xdg-open"@ && other.args.deep_view() == seq![dir@],
{
}

/// A trashed file takes the first free of the names: its own, and behind it the
/// same with a number.
pub proof fn a_trashed_file_takes_the_first_free_name<F: Fn(&str) -> bool>(
    trash: &str,
    file_name: &str,
    present: F,
    r: Option<String>,
    free: int,
)
    requires
        call_ensures(free_trash_name::<F>, (trash, file_name, &present), r),
        r is Some,
        1 <= free,
        !probe::says(present, trash_name(trash@, file_name@, free), true),
        forall|m: int|
            1 <= m < free ==> !probe::says(
                present,
                #[trigger] trash_name(trash@, file_name@, m),
                false,
            ),
    ensures
        r->0@ == trash_name(trash@, file_name@, free),
{
}

} // verus!
