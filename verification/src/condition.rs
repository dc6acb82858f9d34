//! What a run is conditioned on.

use vstd::prelude::*;

use crate::text::same;

verus! {

/// The conditioning of a run.
#[derive(Clone, Copy, PartialEq, Eq, Debug, Structural)]
pub enum Condition {
    Token,
    Diffusion,
    WorldModel,
}

/// The name by which configurations and trace headers spell a condition.
pub open spec fn condition_spelling(c: Condition) -> Seq<char> {
    match c {
        Condition::Token => "token"@,
        Condition::Diffusion => "diffusion"@,
        Condition::WorldModel => "world_model"@,
    }
}

/// The condition that a name spells.
pub open spec fn condition_spelled(s: Seq<char>) -> Option<Condition> {
    if s == "token"@ {
        Some(Condition::Token)
    } else if s == "diffusion"@ {
        Some(Condition::Diffusion)
    } else if s == "world_model"@ {
        Some(Condition::WorldModel)
    } else {
        None
    }
}

/// The label by which trace rows and receipts show a condition.
pub open spec fn condition_label_of(c: Condition) -> Seq<char> {
    match c {
        Condition::Token => "token"@,
        Condition::Diffusion => "diffusion"@,
        Condition::WorldModel => "worldmodel"@,
    }
}

/// The name by which configurations and trace headers spell a condition.
pub fn condition_name(c: Condition) -> (r: &'static str)
    ensures
        r@ == condition_spelling(c),
{
    match c {
        Condition::Token => "token",
        Condition::Diffusion => "diffusion",
        Condition::WorldModel => "world_model",
    }
}

/// The label by which trace rows and receipts show a condition: its name in the
/// source, in small letters.
pub fn condition_label(c: Condition) -> (r: &'static str)
    ensures
        r@ == condition_label_of(c),
{
    match c {
        Condition::Token => "token",
        Condition::Diffusion => "diffusion",
        Condition::WorldModel => "worldmodel",
    }
}

/// Reads the spelling of a condition.
pub fn condition_from_name(s: &str) -> (r: Option<Condition>)
    ensures
        r == condition_spelled(s@),
{
    if same(s, "token") {
        Some(Condition::Token)
    } else if same(s, "diffusion") {
        Some(Condition::Diffusion)
    } else if same(s, "world_model") {
        Some(Condition::WorldModel)
    } else {
        None
    }
}

/// Every condition is read back from its spelling.
pub proof fn conditions_read_back(c: Condition)
    ensures
        condition_spelled(condition_spelling(c)) == Some(c),
{
    reveal_strlit("token");
    reveal_strlit("diffusion");
    reveal_strlit("world_model");
    assert("token"@.len() == 5 && "diffusion"@.len() == 9 && "world_model"@.len() == 11);
}

} // verus!
