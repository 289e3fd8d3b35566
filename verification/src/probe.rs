//! Choosing the first path that the host accepts.
//!
//! Whether a path is a file is a fact of the machine. The choices below take it
//! as a function, and what they promise holds whatever that function answers.
use vstd::prelude::*;

verus! {

/// Whether `probe`, asked about the path `path`, answered `answer`.
pub open spec fn says<F: Fn(&str) -> bool>(probe: F, path: Seq<char>, answer: bool) -> bool {
    exists|p: &str| p@ == path && #[trigger] call_ensures(probe, (p,), answer)
}

/// Whether `choice` is the first of `candidates` that `probe` accepted, or
/// `None` where it accepted none.
pub open spec fn chosen<F: Fn(&str) -> bool>(
    probe: F,
    candidates: Seq<Seq<char>>,
    choice: Option<Seq<char>>,
) -> bool {
    match choice {
        Some(path) => exists|i: int|
            0 <= i < candidates.len() && #[trigger] candidates[i] == path && says(probe, path, true)
                && forall|j: int| 0 <= j < i ==> says(probe, #[trigger] candidates[j], false),
        None => forall|j: int|
            0 <= j < candidates.len() ==> says(probe, #[trigger] candidates[j], false),
    }
}

/// The first of `candidates` that `probe` accepts.
pub fn first_accepted<F: Fn(&str) -> bool>(candidates: &Vec<String>, probe: &F) -> (r: Option<
    String,
>)
    requires
        forall|p: &str| call_requires(*probe, (p,)),
    ensures
        chosen(*probe, candidates.deep_view(), r.deep_view()),
{
    let mut i: usize = 0;
    while i < candidates.len()
        invariant
            i <= candidates@.len(),
            forall|p: &str| call_requires(*probe, (p,)),
            forall|j: int|
                0 <= j < i ==> says(*probe, #[trigger] candidates.deep_view()[j], false),
        decreases candidates@.len() - i,
    {
        let path = candidates[i].as_str();
        let accepted = probe(path);
        proof {
            assert(candidates.deep_view()[i as int] == path@);
            assert(call_ensures(*probe, (path,), accepted));
        }
        if accepted {
            return Some(candidates[i].clone());
        }
        i = i + 1;
    }
    None
}

/// What is chosen was accepted, and nothing before it was: a candidate that the
/// probe never refuses is passed over only for an earlier one, and where nothing
/// is chosen every candidate was refused.
pub proof fn no_candidate_is_passed_over<F: Fn(&str) -> bool>(
    probe: F,
    candidates: Seq<Seq<char>>,
    choice: Option<Seq<char>>,
    i: int,
)
    requires
        chosen(probe, candidates, choice),
        0 <= i < candidates.len(),
        !says(probe, candidates[i], false),
    ensures
        choice is Some,
        exists|k: int| 0 <= k <= i && #[trigger] candidates[k] == choice->0,
        says(probe, choice->0, true),
{
    if choice is None {
        assert(says(probe, candidates[i], false));
    } else {
        let k = choose|k: int|
            0 <= k < candidates.len() && #[trigger] candidates[k] == choice->0 && says(
                probe,
                choice->0,
                true,
            ) && forall|j: int| 0 <= j < k ==> says(probe, #[trigger] candidates[j], false);
        if k > i {
            assert(says(probe, candidates[i], false));
        }
    }
}

} // verus!
