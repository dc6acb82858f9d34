//! How a match edits the graph.

use vstd::prelude::*;

use crate::text::{join3, same, to_lowercase};

verus! {

/// What the engine does with a latent when it matches it against the graph.
#[derive(Clone, Copy, PartialEq, Eq, Debug, Structural)]
pub enum MatchPolicy {
    Identity,
    OneEdit,
    Merge,
    RebuildGStar,
}

/// The name by which configurations and trace headers spell a policy.
pub open spec fn policy_spelling(p: MatchPolicy) -> Seq<char> {
    match p {
        MatchPolicy::Identity => "identity"@,
        MatchPolicy::OneEdit => "one_edit"@,
        MatchPolicy::Merge => "merge"@,
        MatchPolicy::RebuildGStar => "rebuild_gstar"@,
    }
}

/// The policy that a small-letter name stands for.
pub open spec fn policy_named(s: Seq<char>) -> Option<MatchPolicy> {
    if s == "identity"@ {
        Some(MatchPolicy::Identity)
    } else if s == "one_edit"@ || s == "one-edit"@ {
        Some(MatchPolicy::OneEdit)
    } else if s == "merge"@ {
        Some(MatchPolicy::Merge)
    } else if s == "rebuild_gstar"@ || s == "rebuild-gstar"@ || s == "rebuild"@ {
        Some(MatchPolicy::RebuildGStar)
    } else {
        None
    }
}

/// The name by which configurations and trace headers spell a policy.
pub fn policy_name(p: MatchPolicy) -> (r: &'static str)
    ensures
        r@ == policy_spelling(p),
{
    match p {
        MatchPolicy::Identity => "identity",
        MatchPolicy::OneEdit => "one_edit",
        MatchPolicy::Merge => "merge",
        MatchPolicy::RebuildGStar => "rebuild_gstar",
    }
}

/// Reads a name that is already in small letters.
pub fn policy_from_lowercase(s: &str) -> (r: Option<MatchPolicy>)
    ensures
        r == policy_named(s@),
{
    if same(s, "identity") {
        Some(MatchPolicy::Identity)
    } else if same(s, "one_edit") || same(s, "one-edit") {
        Some(MatchPolicy::OneEdit)
    } else if same(s, "merge") {
        Some(MatchPolicy::Merge)
    } else if same(s, "rebuild_gstar") || same(s, "rebuild-gstar") || same(s, "rebuild") {
        Some(MatchPolicy::RebuildGStar)
    } else {
        None
    }
}

/// What a name read as a policy gives: the policy, or the complaint that quotes
/// the name in small letters.
pub open spec fn reads_policy(small: Seq<char>, r: Result<MatchPolicy, String>) -> bool {
    match policy_named(small) {
        Some(policy) => r == Ok::<MatchPolicy, String>(policy),
        None => r matches Err(why) && why@ == "unknown match policy '"@ + small
            + "' (expected identity|one_edit|merge|rebuild_gstar)"@,
    }
}

/// Reads a match policy by its name, in capitals or small letters.
pub fn parse_match_policy(s: &str) -> (r: Result<MatchPolicy, String>)
    ensures
        reads_policy(crate::text::lowered(s@), r),
{
    let small = to_lowercase(s);
    match policy_from_lowercase(small.as_str()) {
        Some(policy) => Ok(policy),
        None => Err(
            join3(
                "unknown match policy '",
                small.as_str(),
                "' (expected identity|one_edit|merge|rebuild_gstar)",
            ),
        ),
    }
}

/// Every policy is read back from its spelling.
pub proof fn policies_read_back(p: MatchPolicy)
    ensures
        policy_named(policy_spelling(p)) == Some(p),
        crate::text::lowered(policy_spelling(p)) == policy_spelling(p),
{
    reveal_strlit("identity");
    reveal_strlit("one_edit");
    reveal_strlit("one-edit");
    reveal_strlit("merge");
    reveal_strlit("rebuild_gstar");
    reveal_strlit("rebuild-gstar");
    reveal_strlit("rebuild");
    assert("identity"@.len() == 8 && "one_edit"@.len() == 8 && "one-edit"@.len() == 8);
    assert("identity"@[0] == 'i' && "one_edit"@[0] == 'o' && "one-edit"@[0] == 'o');
    assert("merge"@.len() == 5 && "rebuild_gstar"@.len() == 13);
    assert(vstd::utf8::is_ascii_chars(policy_spelling(p)));
    assert(crate::text::ascii_lowered(policy_spelling(p)) =~= policy_spelling(p));
}

} // verus!
