//! JSON texts, as far as the shell looks into them: whether a text is JSON at
//! all, and the string members of the object that it holds.
use crate::text;
use vstd::prelude::*;

verus! {

/// What a text holds as JSON: `None` where it is not JSON, and else the members
/// of the object that it is, each with its value where that is a string. A
/// value that is no object has no members.
pub uninterp spec fn json_members(text: Seq<char>) -> Option<Seq<(Seq<char>, Option<Seq<char>>)>>;

/// The indented text of an object with the given members, each a string or
/// null.
pub uninterp spec fn json_object_text(members: Seq<(Seq<char>, Option<Seq<char>>)>) -> Seq<char>;

/// `serde_json::from_str` to a `Value`: whether the text is JSON, and the
/// members of its object, depend on the text alone.
#[verifier::external_body]
pub(crate) fn read_members(text: &str) -> (r: Option<Vec<(String, Option<String>)>>)
    ensures
        r.deep_view() == json_members(text@),
{
    match serde_json::from_str::<serde_json::Value>(text).ok()? {
        serde_json::Value::Object(map) => Some(
            map.into_iter().map(|(key, value)| (key, value.as_str().map(str::to_string))).collect(),
        ),
        _ => Some(Vec::new()),
    }
}

/// The value of the member `key`: `None` where there is no such member, and
/// `Some(None)` where its value is no string.
pub open spec fn member(members: Seq<(Seq<char>, Option<Seq<char>>)>, key: Seq<char>) -> Option<
    Option<Seq<char>>,
>
    decreases members.len(),
{
    if members.len() == 0 {
        None
    } else if members[0].0 == key {
        Some(members[0].1)
    } else {
        member(members.drop_first(), key)
    }
}

/// Whether no two members have the same key.
pub open spec fn distinct_keys(members: Seq<(Seq<char>, Option<Seq<char>>)>) -> bool {
    forall|i: int, j: int|
        0 <= i < j < members.len() ==> (#[trigger] members[i]).0 != (#[trigger] members[j]).0
}

/// `serde_json::to_string_pretty` of an object with the given members, each a
/// string or null: such an object can always be written, the text depends on
/// the members alone, and reading it gives every member back, where no key
/// occurs twice.
#[verifier::external_body]
pub(crate) fn write_object(members: &Vec<(String, Option<String>)>) -> (r: Result<String, String>)
    ensures
        r is Ok,
        r matches Ok(text) ==> text@ == json_object_text(members.deep_view()),
        r matches Ok(text) ==> json_members(text@) is Some,
        r matches Ok(text) ==> distinct_keys(members.deep_view()) ==> forall|i: int|
            0 <= i < members@.len() ==> member(
                json_members(text@)->0,
                (#[trigger] members.deep_view()[i]).0,
            ) == Some(members.deep_view()[i].1),
{
    let mut map = serde_json::Map::new();
    for (key, value) in members.clone() {
        map.insert(key, value.map_or(serde_json::Value::Null, serde_json::Value::String));
    }
    serde_json::to_string_pretty(&serde_json::Value::Object(map)).map_err(|err| err.to_string())
}

/// The value of the member `key`.
pub fn find_member<'a>(members: &'a Vec<(String, Option<String>)>, key: &str) -> (r: Option<
    Option<&'a str>,
>)
    ensures
        r.deep_view() == member(members.deep_view(), key@),
{
    let ghost all = members.deep_view();
    let mut i: usize = 0;
    proof {
        assert(all.skip(0) =~= all);
    }
    while i < members.len()
        invariant
            i <= members@.len(),
            all == members.deep_view(),
            member(all, key@) == member(all.skip(i as int), key@),
        decreases members@.len() - i,
    {
        proof {
            assert(all[i as int] == (members@[i as int].0@, members@[i as int].1.deep_view()));
            assert(all.skip(i as int)[0] == all[i as int]);
            assert(all.skip(i as int).drop_first() =~= all.skip(i + 1));
        }
        if text::str_eq(members[i].0.as_str(), key) {
            return Some(text::borrowed(&members[i].1));
        }
        i = i + 1;
    }
    None
}

/// The first member with a key is the one that counts, and there is none exactly
/// where no member has the key.
pub proof fn the_first_member_counts(
    members: Seq<(Seq<char>, Option<Seq<char>>)>,
    key: Seq<char>,
    i: int,
)
    requires
        0 <= i < members.len(),
        members[i].0 == key,
        forall|j: int| 0 <= j < i ==> (#[trigger] members[j]).0 != key,
    ensures
        member(members, key) == Some(members[i].1),
    decreases i,
{
    if i > 0 {
        let rest = members.drop_first();
        assert(members[0].0 != key);
        assert forall|j: int| 0 <= j < i - 1 implies (#[trigger] rest[j]).0 != key by {
            assert(rest[j] == members[j + 1]);
        }
        the_first_member_counts(rest, key, i - 1);
    }
}

/// A key that no member has is the key of no member.
pub proof fn an_absent_member_is_none(
    members: Seq<(Seq<char>, Option<Seq<char>>)>,
    key: Seq<char>,
)
    requires
        forall|j: int| 0 <= j < members.len() ==> (#[trigger] members[j]).0 != key,
    ensures
        member(members, key) is None,
    decreases members.len(),
{
    if members.len() > 0 {
        let rest = members.drop_first();
        assert(members[0].0 != key);
        assert forall|j: int| 0 <= j < rest.len() implies (#[trigger] rest[j]).0 != key by {
            assert(rest[j] == members[j + 1]);
        }
        an_absent_member_is_none(rest, key);
    }
}

} // verus!
