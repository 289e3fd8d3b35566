//! The bootstrap-complete marker in the managed checkout.
use crate::bootstrap::events;
use crate::bootstrap::pin;
use crate::bootstrap::BootstrapMarker;
use crate::duplicate::Duplicate;
use crate::json;
use crate::paths;
use crate::text;
use vstd::prelude::*;

verus! {

/// The name of the marker in the managed checkout.
pub const MARKER_NAME: &'static str = ".hermes-bootstrap-complete";

/// The marker of the checkout at `active_root`.
pub fn marker_path(active_root: &str, is_windows: bool) -> (r: String)
    ensures
        r@ == paths::joined(active_root@, MARKER_NAME@, is_windows),
{
    paths::join(active_root, MARKER_NAME, is_windows)
}

/// The members that a marker is written with.
pub open spec fn marker_members(marker: events::BootstrapMarkerView) -> Seq<
    (Seq<char>, Option<Seq<char>>),
> {
    seq![
        ("pinnedCommit"@, marker.pinned_commit),
        ("pinnedBranch"@, marker.pinned_branch),
    ]
}

/// The commit that a marker's text records, if it is a real one.
pub open spec fn recorded_commit(text: Seq<char>) -> Option<Seq<char>> {
    recorded_in(json::json_members(text))
}

/// The commit that a marker's members record, if it is a real one.
pub open spec fn recorded_in(members: Option<Seq<(Seq<char>, Option<Seq<char>>)>>) -> Option<
    Seq<char>,
> {
    match members {
        Some(members) => match json::member(members, "pinnedCommit"@) {
            Some(value) => pin::if_pinned(value),
            None => None,
        },
        None => None,
    }
}

/// A real pin that an earlier marker records. `contents` is the marker's text,
/// where it could be read.
pub fn read_existing_pinned_commit(contents: Option<&str>) -> (r: Option<String>)
    ensures
        r.deep_view() == (match contents {
            Some(text) => recorded_commit(text@),
            None => None,
        }),
{
    match contents {
        None => None,
        Some(text) => {
            let members = json::read_members(text);
            commit_in(&members)
        },
    }
}

/// A real pin among a marker's members.
pub fn commit_in(members: &Option<Vec<(String, Option<String>)>>) -> (r: Option<String>)
    ensures
        r.deep_view() == recorded_in(members.deep_view()),
{
    match members {
        None => None,
        Some(members) => match json::find_member(members, "pinnedCommit") {
            Some(Some(commit)) => {
                if pin::is_pinned_commit(Some(commit)) {
                    Some(commit.to_owned())
                } else {
                    None
                }
            },
            Some(None) => None,
            None => None,
        },
    }
}

/// The text of the marker, which can always be encoded. Reading the text back
/// gives the commit that went into it, if that is a real one.
pub fn write_bootstrap_marker(marker: &BootstrapMarker) -> (r: Result<String, String>)
    ensures
        r matches Ok(text) && {
            &&& text@ == json::json_object_text(marker_members(marker.deep_view()))
            &&& recorded_commit(text@) == pin::if_pinned(marker.deep_view().pinned_commit)
        },
{
    let mut members: Vec<(String, Option<String>)> = Vec::new();
    members.push(("pinnedCommit".to_owned(), marker.pinned_commit.duplicate()));
    members.push(("pinnedBranch".to_owned(), marker.pinned_branch.duplicate()));
    proof {
        assert(members.deep_view() =~= marker_members(marker.deep_view()));
        reveal_strlit("pinnedCommit");
        reveal_strlit("pinnedBranch");
        assert("pinnedCommit"@[6] != "pinnedBranch"@[6]);
    }
    match json::write_object(&members) {
        Ok(text) => {
            proof {
                assert(members.deep_view()[0] == ("pinnedCommit"@, marker.deep_view().pinned_commit));
            }
            Ok(text)
        },
        Err(error) => Err(text::cat("Failed to encode marker: ", error.as_str())),
    }
}

/// The failure to write the marker.
pub fn marker_write_failure(error: &str) -> (r: String)
    ensures
        r@ == "Failed to write marker: "@ + error@,
{
    text::cat("Failed to write marker: ", error)
}

/// A marker records its commit under `pinnedCommit` and its branch under
/// `pinnedBranch`, and the commit is read back from there, if it is a real one.
pub proof fn a_marker_is_read_back(marker: events::BootstrapMarkerView)
    ensures
        json::member(marker_members(marker), "pinnedCommit"@) == Some(marker.pinned_commit),
        json::member(marker_members(marker), "pinnedBranch"@) == Some(marker.pinned_branch),
        marker.pinned_commit is Some && pin::pinned(marker.pinned_commit->0) ==> recorded_in(
            Some(marker_members(marker)),
        ) == marker.pinned_commit,
        !(marker.pinned_commit is Some && pin::pinned(marker.pinned_commit->0)) ==> recorded_in(
            Some(marker_members(marker)),
        ) is None,
        recorded_in(None) is None,
{
    reveal_strlit("pinnedCommit");
    reveal_strlit("pinnedBranch");
    assert("pinnedCommit"@[6] != "pinnedBranch"@[6]);
    let members = marker_members(marker);
    json::the_first_member_counts(members, "pinnedCommit"@, 0);
    json::the_first_member_counts(members, "pinnedBranch"@, 1);
}

} // verus!
