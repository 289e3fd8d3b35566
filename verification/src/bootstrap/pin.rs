//! Which commit an installation is pinned to.
use crate::bootstrap::events;
use crate::bootstrap::InstallStamp;
use crate::text;
use vstd::prelude::*;

verus! {

/// Whether `c` is a hexadecimal digit.
pub open spec fn is_hex(c: char) -> bool {
    '0' <= c <= '9' || 'a' <= c <= 'f' || 'A' <= c <= 'F'
}

/// Whether `s` holds nothing but zeros.
pub open spec fn all_zero(s: Seq<char>) -> bool {
    forall|i: int| 0 <= i < s.len() ==> #[trigger] s[i] == '0'
}

/// A real commit: 7 to 40 hexadecimal digits that are not all zero.
pub open spec fn pinned(commit: Seq<char>) -> bool {
    &&& 7 <= commit.len() <= 40
    &&& forall|i: int| 0 <= i < commit.len() ==> is_hex(#[trigger] commit[i])
    &&& !all_zero(commit)
}

/// The placeholder that builds outside a checkout are stamped with.
pub open spec fn fallback(commit: Seq<char>) -> bool {
    commit.len() > 0 && all_zero(commit)
}

/// The commit of a stamp, if it is a real one.
pub open spec fn stamped_commit(stamp: Option<events::InstallStampView>) -> Option<Seq<char>> {
    match stamp {
        Some(stamp) => match stamp.commit {
            Some(commit) => if pinned(commit) {
                Some(commit)
            } else {
                None
            },
            None => None,
        },
        None => None,
    }
}

/// The branch of a stamp.
pub open spec fn stamped_branch(stamp: Option<events::InstallStampView>) -> Option<Seq<char>> {
    match stamp {
        Some(stamp) => stamp.branch,
        None => None,
    }
}

fn only_zeros(chars: &Vec<char>) -> (r: bool)
    ensures
        r == all_zero(chars@),
{
    let mut i: usize = 0;
    while i < chars.len()
        invariant
            i <= chars@.len(),
            forall|j: int| 0 <= j < i ==> #[trigger] chars@[j] == '0',
        decreases chars@.len() - i,
    {
        if chars[i] != '0' {
            return false;
        }
        i = i + 1;
    }
    true
}

/// A real git commit pin: 7 to 40 hexadecimal characters, and not the all-zero
/// placeholder.
pub fn is_pinned_commit(commit: Option<&str>) -> (r: bool)
    ensures
        r == (commit matches Some(text) && pinned(text@)),
{
    match commit {
        None => false,
        Some(text) => {
            let chars = text::chars_of(text);
            if chars.len() < 7 || chars.len() > 40 {
                return false;
            }
            let mut i: usize = 0;
            while i < chars.len()
                invariant
                    i <= chars@.len(),
                    commit == Some(text),
                    chars@ == text@,
                    forall|j: int| 0 <= j < i ==> is_hex(#[trigger] chars@[j]),
                decreases chars@.len() - i,
            {
                let c = chars[i];
                if !(('0' <= c && c <= '9') || ('a' <= c && c <= 'f') || ('A' <= c && c <= 'F')) {
                    assert(!is_hex(text@[i as int]));
                    return false;
                }
                i = i + 1;
            }
            !only_zeros(&chars)
        },
    }
}

/// Whether a commit is the all-zero placeholder.
pub fn is_fallback_commit(commit: Option<&str>) -> (r: bool)
    ensures
        r == (commit matches Some(text) && fallback(text@)),
{
    match commit {
        None => false,
        Some(text) => {
            let chars = text::chars_of(text);
            chars.len() > 0 && only_zeros(&chars)
        },
    }
}

/// The ref to fetch the installer from, and its cache key.
#[derive(Debug, Clone, PartialEq, Eq)]
pub struct InstallRef {
    pub ref_name: String,
    pub cache_key: String,
    pub pinned: bool,
}

/// What an `InstallRef` says.
#[verifier::ext_equal]
pub struct InstallRefView {
    pub ref_name: Seq<char>,
    pub cache_key: Seq<char>,
    pub pinned: bool,
}

impl DeepView for InstallRef {
    type V = InstallRefView;

    open spec fn deep_view(&self) -> InstallRefView {
        InstallRefView {
            ref_name: self.ref_name@,
            cache_key: self.cache_key@,
            pinned: self.pinned,
        }
    }
}

/// Whether `c` may stand in a cache key.
pub open spec fn is_key_char(c: char) -> bool {
    text::unicode::is_ascii_letter(c) || text::number::is_digit(c) || c == '.' || c == '_' || c
        == '-'
}

/// A branch name as part of a file name.
pub open spec fn as_key(branch: Seq<char>) -> Seq<char> {
    Seq::new(
        branch.len(),
        |i: int|
            if is_key_char(branch[i]) {
                branch[i]
            } else {
                '_'
            },
    )
}

/// The ref that a stamp stands for: a real pin is itself, a placeholder stands
/// for its branch, and any other stamp for nothing.
pub open spec fn install_ref(stamp: Option<events::InstallStampView>) -> Option<InstallRefView> {
    match stamp {
        None => None,
        Some(stamp) => match stamp.commit {
            None => None,
            Some(commit) => if pinned(commit) {
                Some(InstallRefView { ref_name: commit, cache_key: commit, pinned: true })
            } else if fallback(commit) {
                let branch = match stamp.branch {
                    Some(name) => name,
                    None => "main"@,
                };
                Some(
                    InstallRefView {
                        ref_name: branch,
                        cache_key: "fallback-"@ + as_key(branch),
                        pinned: false,
                    },
                )
            } else {
                None
            },
        },
    }
}

/// `branch` as part of a file name.
fn key_of(branch: &str) -> (r: String)
    ensures
        r@ == as_key(branch@),
{
    let chars = text::chars_of(branch);
    let mut out = String::new();
    let mut i: usize = 0;
    while i < chars.len()
        invariant
            i <= chars@.len(),
            chars@ == branch@,
            out@ == as_key(branch@).take(i as int),
        decreases chars@.len() - i,
    {
        let c = chars[i];
        let keep = ('a' <= c && c <= 'z') || ('A' <= c && c <= 'Z') || ('0' <= c && c <= '9') || c
            == '.' || c == '_' || c == '-';
        let ghost before = out@;
        out.push(
            if keep {
                c
            } else {
                '_'
            },
        );
        proof {
            assert(as_key(branch@).take(i + 1) =~= before.push(as_key(branch@)[i as int]));
        }
        i = i + 1;
    }
    proof {
        assert(as_key(branch@).take(i as int) =~= as_key(branch@));
    }
    out
}

/// Map an install stamp to the ref that the installer is fetched from. Real
/// pins are immutable; all-zero stamps become an unpinned branch, so that
/// nobody is ever asked for commit `0000000…`.
pub fn install_ref_for_stamp(stamp: Option<&InstallStamp>) -> (r: Option<InstallRef>)
    ensures
        r.deep_view() == install_ref(stamp.deep_view()),
{
    match stamp {
        None => None,
        Some(stamp) => match &stamp.commit {
            None => None,
            Some(commit) => {
                if is_pinned_commit(Some(commit.as_str())) {
                    return Some(
                        InstallRef {
                            ref_name: commit.clone(),
                            cache_key: commit.clone(),
                            pinned: true,
                        },
                    );
                }
                if is_fallback_commit(Some(commit.as_str())) {
                    let branch = match &stamp.branch {
                        Some(name) => name.clone(),
                        None => "main".to_owned(),
                    };
                    let key = key_of(branch.as_str());
                    return Some(
                        InstallRef {
                            ref_name: branch,
                            cache_key: text::cat("fallback-", key.as_str()),
                            pinned: false,
                        },
                    );
                }
                None
            },
        },
    }
}

/// The commit argument, where the commit is to be pinned and is a real one.
pub open spec fn commit_arg(
    flag: Seq<char>,
    stamp: Option<events::InstallStampView>,
    pin_commit: bool,
) -> Seq<Seq<char>> {
    if pin_commit && stamped_commit(stamp) is Some {
        seq![flag, stamped_commit(stamp)->0]
    } else {
        Seq::empty()
    }
}

/// The branch argument, where the stamp names a branch.
pub open spec fn branch_arg(flag: Seq<char>, stamp: Option<events::InstallStampView>) -> Seq<
    Seq<char>,
> {
    match stamped_branch(stamp) {
        Some(branch) => seq![flag, branch],
        None => Seq::empty(),
    }
}

fn commit_of(stamp: Option<&InstallStamp>) -> (r: Option<String>)
    ensures
        r.deep_view() == stamped_commit(stamp.deep_view()),
{
    match stamp {
        None => None,
        Some(stamp) => match &stamp.commit {
            None => None,
            Some(commit) => {
                if is_pinned_commit(Some(commit.as_str())) {
                    Some(commit.clone())
                } else {
                    None
                }
            },
        },
    }
}

/// The branch of a stamp.
pub fn branch_of(stamp: Option<&InstallStamp>) -> (r: Option<String>)
    ensures
        r.deep_view() == stamped_branch(stamp.deep_view()),
{
    match stamp {
        None => None,
        Some(stamp) => match &stamp.branch {
            Some(branch) => Some(branch.clone()),
            None => None,
        },
    }
}

/// Add an option and its value, where there is one.
fn push_option(args: &mut Vec<String>, flag: &str, value: Option<String>)
    ensures
        final(args).deep_view() == old(args).deep_view() + (match value.deep_view() {
            Some(text) => seq![flag@, text],
            None => Seq::empty(),
        }),
{
    let ghost before = args.deep_view();
    match value {
        Some(text) => {
            args.push(flag.to_owned());
            args.push(text);
            proof {
                assert(args.deep_view() =~= before + seq![flag@, text@]);
            }
        },
        None => {
            proof {
                assert(args.deep_view() =~= before + Seq::<Seq<char>>::empty());
            }
        },
    }
}

/// The pin arguments of the Windows installer: the commit, then the branch.
pub open spec fn pin_args(stamp: Option<events::InstallStampView>, pin_commit: bool) -> Seq<
    Seq<char>,
> {
    commit_arg("-Commit"@, stamp, pin_commit) + branch_arg("-Branch"@, stamp)
}

/// The installer's pin arguments. Fresh installs pin the commit; once a managed
/// checkout exists, bootstrap is a repair and must not detach the checkout back
/// to the commit baked into an old app.
pub fn build_pin_args(stamp: Option<&InstallStamp>, pin_commit: bool) -> (r: Vec<String>)
    ensures
        r.deep_view() == pin_args(stamp.deep_view(), pin_commit),
{
    let mut args: Vec<String> = Vec::new();
    proof {
        assert(args.deep_view() =~= Seq::<Seq<char>>::empty());
    }
    if pin_commit {
        push_option(&mut args, "-Commit", commit_of(stamp));
    }
    push_option(&mut args, "-Branch", branch_of(stamp));
    proof {
        assert(args.deep_view() =~= pin_args(stamp.deep_view(), pin_commit));
    }
    args
}

/// The pin arguments of the POSIX installer: the directories, the branch, then
/// the commit.
pub open spec fn posix_args(
    stamp: Option<events::InstallStampView>,
    active_root: Seq<char>,
    hermes_home: Seq<char>,
    pin_commit: bool,
) -> Seq<Seq<char>> {
    seq!["--dir"@, active_root, "--hermes-home"@, hermes_home] + branch_arg("--branch"@, stamp)
        + commit_arg("--commit"@, stamp, pin_commit)
}

/// The POSIX installer's arguments for where and what to install.
pub fn posix_pin_args(
    stamp: Option<&InstallStamp>,
    active_root: &str,
    hermes_home: &str,
    pin_commit: bool,
) -> (r: Vec<String>)
    ensures
        r.deep_view() == posix_args(stamp.deep_view(), active_root@, hermes_home@, pin_commit),
{
    let mut args: Vec<String> = Vec::new();
    args.push("--dir".to_owned());
    args.push(active_root.to_owned());
    args.push("--hermes-home".to_owned());
    args.push(hermes_home.to_owned());
    proof {
        assert(args.deep_view() =~= seq!["--dir"@, active_root@, "--hermes-home"@, hermes_home@]);
    }
    push_option(&mut args, "--branch", branch_of(stamp));
    if pin_commit {
        push_option(&mut args, "--commit", commit_of(stamp));
    }
    proof {
        assert(args.deep_view() =~= posix_args(
            stamp.deep_view(),
            active_root@,
            hermes_home@,
            pin_commit,
        ));
    }
    args
}

/// A commit, if it is a real one.
pub open spec fn if_pinned(commit: Option<Seq<char>>) -> Option<Seq<char>> {
    match commit {
        Some(text) => if pinned(text) {
            Some(text)
        } else {
            None
        },
        None => None,
    }
}

/// The commit that the marker records: that of the stamp, else that of the
/// checkout, else the one recorded before, each only if it is a real one.
pub open spec fn marker_commit(
    stamp: Option<events::InstallStampView>,
    head: Option<Seq<char>>,
    existing: Option<Seq<char>>,
) -> Option<Seq<char>> {
    if stamped_commit(stamp) is Some {
        stamped_commit(stamp)
    } else if if_pinned(head) is Some {
        if_pinned(head)
    } else {
        if_pinned(existing)
    }
}

fn keep_pinned(commit: Option<&str>) -> (r: Option<String>)
    ensures
        r.deep_view() == if_pinned(commit.deep_view()),
{
    match commit {
        Some(text) => {
            if is_pinned_commit(Some(text)) {
                Some(text.to_owned())
            } else {
                None
            }
        },
        None => None,
    }
}

/// Pick the commit that the bootstrap-complete marker records. Packaged
/// all-zero stamps must not win; after a successful install the checkout's own
/// commit, or the installer's own marker, does.
pub fn resolve_marker_pinned_commit(
    stamp: Option<&InstallStamp>,
    head: Option<&str>,
    existing_pinned: Option<&str>,
) -> (r: Option<String>)
    ensures
        r.deep_view() == marker_commit(
            stamp.deep_view(),
            head.deep_view(),
            existing_pinned.deep_view(),
        ),
{
    if let Some(commit) = commit_of(stamp) {
        return Some(commit);
    }
    if let Some(commit) = keep_pinned(head) {
        return Some(commit);
    }
    keep_pinned(existing_pinned)
}

/// The arguments with which git is asked for the commit of a checkout.
pub fn checkout_head_args() -> (r: Vec<String>)
    ensures
        r.deep_view() == seq!["-c"@, "windows.appendAtomically=false"@, "rev-parse"@, "HEAD"@],
{
    let mut args: Vec<String> = Vec::new();
    args.push("-c".to_owned());
    args.push("windows.appendAtomically=false".to_owned());
    args.push("rev-parse".to_owned());
    args.push("HEAD".to_owned());
    proof {
        assert(args.deep_view() =~= seq![
            "-c"@,
            "windows.appendAtomically=false"@,
            "rev-parse"@,
            "HEAD"@,
        ]);
    }
    args
}

/// What `git rev-parse HEAD` printed, as a commit, if it is a real one.
pub open spec fn head_of(succeeded: bool, stdout: Seq<char>) -> Option<Seq<char>> {
    if succeeded {
        if_pinned(Some(text::trimmed(stdout)))
    } else {
        None
    }
}

/// The commit of a managed checkout: what `git rev-parse HEAD` printed, where
/// it succeeded and printed a real commit.
pub fn resolve_checkout_head(succeeded: bool, stdout: &[u8]) -> (r: Option<String>)
    ensures
        r.deep_view() == head_of(succeeded, text::unicode::lossy(stdout@)),
{
    let printed = text::unicode::from_utf8_lossy(stdout);
    checkout_head(succeeded, printed.as_str())
}

/// The commit that decoded output of `git rev-parse HEAD` names.
pub fn checkout_head(succeeded: bool, stdout: &str) -> (r: Option<String>)
    ensures
        r.deep_view() == head_of(succeeded, stdout@),
{
    if !succeeded {
        return None;
    }
    let sha = text::trim(stdout);
    keep_pinned(Some(sha.as_str()))
}

// ---------------------------------------------------------------------------
// Laws
// ---------------------------------------------------------------------------
/// An installer is only ever fetched from a real commit or from a branch: a ref
/// that claims to be pinned is a real commit, and one that does not stands for
/// an all-zero stamp.
pub proof fn a_pinned_ref_is_a_real_commit(stamp: events::InstallStampView)
    ensures
        match install_ref(Some(stamp)) {
            Some(found) => if found.pinned {
                pinned(found.ref_name) && stamp.commit == Some(found.ref_name)
            } else {
                stamp.commit is Some && fallback(stamp.commit->0) && found.ref_name == (
                match stamp.branch {
                    Some(branch) => branch,
                    None => "main"@,
                })
            },
            None => stamp.commit is None || (!pinned(stamp.commit->0) && !fallback(
                stamp.commit->0,
            )),
        },
{
}

/// A cache key is a plain file name whatever the branch is called: it holds no
/// path separator and no drive.
pub proof fn a_cache_key_is_a_plain_name(stamp: Option<events::InstallStampView>)
    ensures
        install_ref(stamp) matches Some(found) ==> forall|i: int|
            0 <= i < found.cache_key.len() ==> is_key_char(#[trigger] found.cache_key[i]),
{
    if let Some(found) = install_ref(stamp) {
        reveal_strlit("fallback-");
        assert forall|i: int| 0 <= i < found.cache_key.len() implies is_key_char(
            #[trigger] found.cache_key[i],
        ) by {
            if found.pinned {
                assert(is_hex(found.ref_name[i]));
            }
        }
    }
}

/// A repair never pins: without pinning, the commit of the stamp makes no
/// difference to the arguments.
pub proof fn a_repair_never_pins(
    first: events::InstallStampView,
    second: events::InstallStampView,
    active_root: Seq<char>,
    hermes_home: Seq<char>,
)
    requires
        first.branch == second.branch,
    ensures
        pin_args(Some(first), false) == pin_args(Some(second), false),
        posix_args(Some(first), active_root, hermes_home, false) == posix_args(
            Some(second),
            active_root,
            hermes_home,
            false,
        ),
{
}

/// A marker only ever records a real commit, and records one whenever any of
/// its three sources has one.
pub proof fn a_marker_records_a_real_commit(
    stamp: Option<events::InstallStampView>,
    head: Option<Seq<char>>,
    existing: Option<Seq<char>>,
)
    ensures
        marker_commit(stamp, head, existing) matches Some(commit) ==> pinned(commit),
        marker_commit(stamp, head, existing) is Some <==> stamped_commit(stamp) is Some
            || if_pinned(head) is Some || if_pinned(existing) is Some,
{
}

/// A real commit is 7 to 40 hexadecimal digits, in either case, one of which is
/// no zero; zeros alone are the placeholder, however many they are.
pub proof fn a_commit_is_hexadecimal_and_not_all_zero(commit: Seq<char>)
    ensures
        pinned(commit) <==> {
            &&& 7 <= commit.len() <= 40
            &&& forall|i: int|
                0 <= i < commit.len() ==> "0123456789abcdefABCDEF"@.contains(#[trigger] commit[i])
            &&& exists|i: int| 0 <= i < commit.len() && #[trigger] commit[i] != '0'
        },
        fallback(commit) <==> commit.len() > 0 && !exists|i: int|
            0 <= i < commit.len() && #[trigger] commit[i] != '0',
        !(pinned(commit) && fallback(commit)),
{
    assert forall|i: int| 0 <= i < commit.len() implies is_hex(#[trigger] commit[i])
        == "0123456789abcdefABCDEF"@.contains(commit[i]) by {
        lemma_hex(commit[i]);
    }
}

proof fn lemma_hex(c: char)
    ensures
        is_hex(c) == "0123456789abcdefABCDEF"@.contains(c),
{
    reveal_strlit("0123456789abcdefABCDEF");
    let all = "0123456789abcdefABCDEF"@;
    if '0' <= c <= '9' {
        assert(all[c as int - 48] == c);
    } else if 'a' <= c <= 'f' {
        assert(all[c as int - 97 + 10] == c);
    } else if 'A' <= c <= 'F' {
        assert(all[c as int - 65 + 16] == c);
    }
}

/// A real commit is fetched as itself and kept under its own name. A placeholder
/// is fetched from its branch, `main` where it has none, and kept under the name of
/// the branch, in which every character that is no letter, digit, dot, underscore
/// or hyphen is an underscore.
pub proof fn a_stamp_is_fetched_from_its_commit_or_branch(
    commit: Seq<char>,
    branch: Seq<char>,
)
    ensures
        pinned(commit) ==> forall|b: Option<Seq<char>>|
            install_ref(#[trigger] stamp_of(Some(commit), b)) == Some(
                InstallRefView { ref_name: commit, cache_key: commit, pinned: true },
            ),
        fallback(commit) ==> {
            let found = install_ref(stamp_of(Some(commit), Some(branch)));
            &&& found is Some
            &&& found->0.ref_name == branch
            &&& !found->0.pinned
            &&& found->0.cache_key.len() == "fallback-"@.len() + branch.len()
            &&& found->0.cache_key.take("fallback-"@.len() as int) == "fallback-"@
            &&& forall|i: int|
                0 <= i < branch.len() ==> {
                    let c = #[trigger] branch[i];
                    let plain = 'a' <= c <= 'z' || 'A' <= c <= 'Z' || '0' <= c <= '9' || c == '.'
                        || c == '_' || c == '-';
                    found->0.cache_key["fallback-"@.len() + i] == if plain {
                        c
                    } else {
                        '_'
                    }
                }
        },
        fallback(commit) ==> install_ref(stamp_of(Some(commit), None)) is Some && install_ref(
            stamp_of(Some(commit), None),
        )->0.ref_name == "main"@,
        !pinned(commit) && !fallback(commit) ==> install_ref(stamp_of(Some(commit), Some(branch))) is None,
        install_ref(None) is None,
        install_ref(stamp_of(None, Some(branch))) is None,
{
    if fallback(commit) {
        let found = install_ref(stamp_of(Some(commit), Some(branch)))->0;
        assert(found.cache_key.take("fallback-"@.len() as int) =~= "fallback-"@);
    }
}

/// A stamp with this commit and this branch.
pub open spec fn stamp_of(commit: Option<Seq<char>>, branch: Option<Seq<char>>) -> Option<
    events::InstallStampView,
> {
    Some(events::InstallStampView { commit, branch })
}

/// A fresh install asks for the commit of its stamp and its branch, each under the
/// option that the platform's installer knows, and tells the POSIX installer where
/// to install. What the stamp does not say is not asked for, nor is a commit that
/// is no real one.
pub proof fn a_fresh_install_asks_for_its_commit_and_branch(
    commit: Seq<char>,
    branch: Seq<char>,
    active_root: Seq<char>,
    hermes_home: Seq<char>,
)
    ensures
        ({
            let both = stamp_of(Some(commit), Some(branch));
            let head = seq!["--dir"@, active_root, "--hermes-home"@, hermes_home];
            &&& pinned(commit) ==> pin_args(both, true) == seq![
                "-Commit"@,
                commit,
                "-Branch"@,
                branch,
            ]
            &&& !pinned(commit) ==> pin_args(both, true) == seq!["-Branch"@, branch]
            &&& pin_args(both, false) == seq!["-Branch"@, branch]
            &&& pin_args(stamp_of(None, None), true).len() == 0
            &&& pin_args(None, true).len() == 0
            &&& pinned(commit) ==> pin_args(stamp_of(Some(commit), None), true) == seq![
                "-Commit"@,
                commit,
            ]
            &&& pinned(commit) ==> posix_args(both, active_root, hermes_home, true) == head + seq![
                "--branch"@,
                branch,
                "--commit"@,
                commit,
            ]
            &&& !pinned(commit) ==> posix_args(both, active_root, hermes_home, true) == head
                + seq!["--branch"@, branch]
            &&& posix_args(both, active_root, hermes_home, false) == head + seq![
                "--branch"@,
                branch,
            ]
            &&& posix_args(None, active_root, hermes_home, true) == head
            &&& pinned(commit) ==> posix_args(
                stamp_of(Some(commit), None),
                active_root,
                hermes_home,
                true,
            ) == head + seq!["--commit"@, commit]
        }),
{
    let both = stamp_of(Some(commit), Some(branch));
    let one = stamp_of(Some(commit), None);
    let head = seq!["--dir"@, active_root, "--hermes-home"@, hermes_home];
    assert(pin_args(both, false) =~= seq!["-Branch"@, branch]);
    assert(posix_args(both, active_root, hermes_home, false) =~= head + seq!["--branch"@, branch]);
    assert(posix_args(None, active_root, hermes_home, true) =~= head);
    if pinned(commit) {
        assert(pin_args(both, true) =~= seq!["-Commit"@, commit, "-Branch"@, branch]);
        assert(pin_args(one, true) =~= seq!["-Commit"@, commit]);
        assert(posix_args(both, active_root, hermes_home, true) =~= head + seq![
            "--branch"@,
            branch,
            "--commit"@,
            commit,
        ]);
        assert(posix_args(one, active_root, hermes_home, true) =~= head + seq!["--commit"@, commit]);
    } else {
        assert(pin_args(both, true) =~= seq!["-Branch"@, branch]);
        assert(posix_args(both, active_root, hermes_home, true) =~= head + seq![
            "--branch"@,
            branch,
        ]);
    }
}

/// The commit of the stamp outranks that of the checkout, and that outranks the
/// one recorded before; one that is no real commit counts as none.
pub proof fn the_stamp_outranks_the_checkout(
    stamp: Option<events::InstallStampView>,
    head: Option<Seq<char>>,
    existing: Option<Seq<char>>,
)
    ensures
        ({
            let by_stamp = stamp is Some && stamp->0.commit is Some && pinned(stamp->0.commit->0);
            let by_head = head is Some && pinned(head->0);
            let by_record = existing is Some && pinned(existing->0);
            let recorded = marker_commit(stamp, head, existing);
            &&& by_stamp ==> recorded == stamp->0.commit
            &&& !by_stamp && by_head ==> recorded == head
            &&& !by_stamp && !by_head && by_record ==> recorded == existing
            &&& !by_stamp && !by_head && !by_record ==> recorded is None
        }),
        stamp matches Some(stamp) ==> stamped_branch(Some(stamp)) == stamp.branch,
        stamped_branch(None) is None,
{
}

/// The commit of a checkout is what was printed, without the white space around
/// it, where the question succeeded and the answer is a real commit.
pub proof fn a_checkout_is_at_the_commit_that_is_printed(stdout: Seq<char>)
    ensures
        head_of(false, stdout) is None,
        pinned(text::trimmed(stdout)) ==> head_of(true, stdout) == Some(text::trimmed(stdout)),
        !pinned(text::trimmed(stdout)) ==> head_of(true, stdout) is None,
{
}

// ---------------------------------------------------------------------------
// Laws of the operations themselves
// ---------------------------------------------------------------------------
/// The commit of a checkout is asked for with git's own words.
pub proof fn a_checkout_is_asked_for_its_commit(r: Vec<String>)
    requires
        call_ensures(checkout_head_args, (), r),
    ensures
        r.deep_view() == seq![
            "-c"@,
            "windows.appendAtomically=false"@,
            "rev-parse"@,
            "HEAD"@,
        ],
{
}

/// A commit is pinned, or stands in for one, by its text alone, and never where
/// there is none.
pub proof fn no_commit_is_neither_pinned_nor_a_fallback(
    commit: &str,
    pinned_commit: bool,
    fallback_commit: bool,
    unset_pinned: bool,
    unset_fallback: bool,
)
    requires
        call_ensures(is_pinned_commit, (Some(commit),), pinned_commit),
        call_ensures(is_fallback_commit, (Some(commit),), fallback_commit),
        call_ensures(is_pinned_commit, (None::<&str>,), unset_pinned),
        call_ensures(is_fallback_commit, (None::<&str>,), unset_fallback),
    ensures
        !unset_pinned && !unset_fallback,
        pinned_commit <==> pinned(commit@),
        fallback_commit <==> fallback(commit@),
{
}

} // verus!
