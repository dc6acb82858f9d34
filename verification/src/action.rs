//! The five named actions of the engine.

use vstd::prelude::*;

use crate::text::{join3, same, to_lowercase};

verus! {

/// The alphabet of the engine: one letter per step it can take.
#[derive(Clone, Copy, PartialEq, Eq, Debug, Structural)]
pub enum Action {
    OpticalStep,
    Predict,
    Match,
    Diffuse,
    Stutter,
}

/// The one-letter symbol of an action.
pub open spec fn symbol_of(action: Action) -> Seq<char> {
    match action {
        Action::OpticalStep => "O"@,
        Action::Predict => "P"@,
        Action::Match => "M"@,
        Action::Diffuse => "D"@,
        Action::Stutter => "S"@,
    }
}

/// The full name of an action.
pub open spec fn name_of(action: Action) -> Seq<char> {
    match action {
        Action::OpticalStep => "OpticalStep"@,
        Action::Predict => "Predict"@,
        Action::Match => "Match"@,
        Action::Diffuse => "Diffuse"@,
        Action::Stutter => "Stutter"@,
    }
}

/// The action that a small-letter name stands for.
pub open spec fn action_named(s: Seq<char>) -> Option<Action> {
    if s == "opticalstep"@ || s == "optical_step"@ || s == "o"@ {
        Some(Action::OpticalStep)
    } else if s == "predict"@ || s == "p"@ {
        Some(Action::Predict)
    } else if s == "match"@ || s == "m"@ {
        Some(Action::Match)
    } else if s == "diffuse"@ || s == "d"@ {
        Some(Action::Diffuse)
    } else if s == "stutter"@ || s == "s"@ {
        Some(Action::Stutter)
    } else {
        None
    }
}

impl Action {
    /// The one-letter symbol.
    pub fn symbol(&self) -> (r: &'static str)
        ensures
            r@ == symbol_of(*self),
    {
        match self {
            Action::OpticalStep => "O",
            Action::Predict => "P",
            Action::Match => "M",
            Action::Diffuse => "D",
            Action::Stutter => "S",
        }
    }

    /// The full name.
    pub fn name(&self) -> (r: &'static str)
        ensures
            r@ == name_of(*self),
    {
        match self {
            Action::OpticalStep => "OpticalStep",
            Action::Predict => "Predict",
            Action::Match => "Match",
            Action::Diffuse => "Diffuse",
            Action::Stutter => "Stutter",
        }
    }
}

/// The full names of all actions, in the order of the alphabet.
pub fn actions() -> (r: Vec<String>)
    ensures
        r@.len() == 5,
        r@[0]@ == name_of(Action::OpticalStep),
        r@[1]@ == name_of(Action::Predict),
        r@[2]@ == name_of(Action::Match),
        r@[3]@ == name_of(Action::Diffuse),
        r@[4]@ == name_of(Action::Stutter),
{
    let mut names: Vec<String> = Vec::new();
    names.push(Action::OpticalStep.name().to_string());
    names.push(Action::Predict.name().to_string());
    names.push(Action::Match.name().to_string());
    names.push(Action::Diffuse.name().to_string());
    names.push(Action::Stutter.name().to_string());
    names
}

/// Reads a name that is already in small letters.
pub fn action_from_lowercase(s: &str) -> (r: Option<Action>)
    ensures
        r == action_named(s@),
{
    if same(s, "opticalstep") || same(s, "optical_step") || same(s, "o") {
        Some(Action::OpticalStep)
    } else if same(s, "predict") || same(s, "p") {
        Some(Action::Predict)
    } else if same(s, "match") || same(s, "m") {
        Some(Action::Match)
    } else if same(s, "diffuse") || same(s, "d") {
        Some(Action::Diffuse)
    } else if same(s, "stutter") || same(s, "s") {
        Some(Action::Stutter)
    } else {
        None
    }
}

/// What a name read as an action gives: the action, or the complaint that quotes
/// the name in small letters.
pub open spec fn reads_action(small: Seq<char>, r: Result<Action, String>) -> bool {
    match action_named(small) {
        Some(action) => r == Ok::<Action, String>(action),
        None => r matches Err(why) && why@ == "unknown action '"@ + small
            + "' (expected OpticalStep|Predict|Match|Diffuse|Stutter)"@,
    }
}

/// Reads an action by its name or its symbol, in capitals or small letters.
pub fn parse_action(s: &str) -> (r: Result<Action, String>)
    ensures
        reads_action(crate::text::lowered(s@), r),
{
    let small = to_lowercase(s);
    match action_from_lowercase(small.as_str()) {
        Some(action) => Ok(action),
        None => Err(
            join3(
                "unknown action '",
                small.as_str(),
                "' (expected OpticalStep|Predict|Match|Diffuse|Stutter)",
            ),
        ),
    }
}

/// Every action is read back from its symbol and from its name.
pub proof fn names_read_back(action: Action)
    ensures
        action_named(crate::text::lowered(symbol_of(action))) == Some(action),
        action_named(crate::text::lowered(name_of(action))) == Some(action),
{
    reveal_strlit("O");
    reveal_strlit("P");
    reveal_strlit("M");
    reveal_strlit("D");
    reveal_strlit("S");
    reveal_strlit("OpticalStep");
    reveal_strlit("Predict");
    reveal_strlit("Match");
    reveal_strlit("Diffuse");
    reveal_strlit("Stutter");
    reveal_strlit("opticalstep");
    reveal_strlit("optical_step");
    reveal_strlit("o");
    reveal_strlit("predict");
    reveal_strlit("p");
    reveal_strlit("match");
    reveal_strlit("m");
    reveal_strlit("diffuse");
    reveal_strlit("d");
    reveal_strlit("stutter");
    reveal_strlit("s");
    assert(vstd::utf8::is_ascii_chars(symbol_of(action)));
    assert(vstd::utf8::is_ascii_chars(name_of(action)));
    let lowered = crate::text::ascii_lowered(symbol_of(action));
    let named = crate::text::ascii_lowered(name_of(action));
    assert("o"@[0] == 'o' && "p"@[0] == 'p' && "m"@[0] == 'm' && "d"@[0] == 'd' && "s"@[0] == 's');
    assert("opticalstep"@.len() == 11 && "optical_step"@.len() == 12);
    assert("predict"@.len() == 7 && "diffuse"@.len() == 7 && "stutter"@.len() == 7);
    assert("predict"@[0] == 'p' && "diffuse"@[0] == 'd' && "stutter"@[0] == 's');
    assert("match"@.len() == 5);
    match action {
        Action::OpticalStep => {
            assert(lowered =~= "o"@);
            assert(named =~= "opticalstep"@);
        },
        Action::Predict => {
            assert(lowered =~= "p"@);
            assert(named =~= "predict"@);
        },
        Action::Match => {
            assert(lowered =~= "m"@);
            assert(named =~= "match"@);
        },
        Action::Diffuse => {
            assert(lowered =~= "d"@);
            assert(named =~= "diffuse"@);
        },
        Action::Stutter => {
            assert(lowered =~= "s"@);
            assert(named =~= "stutter"@);
        },
    }
}

/// Every name that is known is in small ASCII letters already.
proof fn known_names_are_small(s: Seq<char>)
    requires
        action_named(s) is Some,
    ensures
        crate::text::lowered(s) == s,
{
    reveal_strlit("opticalstep");
    reveal_strlit("optical_step");
    reveal_strlit("o");
    reveal_strlit("predict");
    reveal_strlit("p");
    reveal_strlit("match");
    reveal_strlit("m");
    reveal_strlit("diffuse");
    reveal_strlit("d");
    reveal_strlit("stutter");
    reveal_strlit("s");
    assert(vstd::utf8::is_ascii_chars(s));
    assert(crate::text::ascii_lowered(s) =~= s);
}

/// A text and its small letters are read alike: an action that is read from the one is
/// read from the other. Where small letters stay as they are, as they do in ASCII, nothing
/// more is read from the one than from the other, and the complaints agree too.
pub proof fn small_letters_read_alike(
    s: Seq<char>,
    r1: Result<Action, String>,
    r2: Result<Action, String>,
)
    requires
        reads_action(crate::text::lowered(s), r1),
        reads_action(crate::text::lowered(crate::text::lowered(s)), r2),
    ensures
        r1 matches Ok(action) ==> r2 == Ok::<Action, String>(action),
        vstd::utf8::is_ascii_chars(s) ==> crate::text::lowered(crate::text::lowered(s))
            == crate::text::lowered(s),
        crate::text::lowered(crate::text::lowered(s)) == crate::text::lowered(s) ==> match (r1, r2) {
            (Ok(a), Ok(b)) => a == b,
            (Err(e), Err(f)) => e@ == f@,
            _ => false,
        },
{
    let small = crate::text::lowered(s);
    if action_named(small) is Some {
        known_names_are_small(small);
    }
    if vstd::utf8::is_ascii_chars(s) {
        assert(vstd::utf8::is_ascii_chars(small));
        assert(crate::text::lowered(small) =~= small);
    }
}

} // verus!
