//! How texts come apart.

use vstd::prelude::*;

use crate::action::{parse_action, Action};
use crate::condition::{condition_from_name, condition_label, condition_name, Condition};
use crate::policy::{parse_match_policy, policy_name, MatchPolicy};
use crate::text::{
    broken_lines, first_of, lines_of, number_of, numeral, one_line, pieces_of, trimmed,
    unsigned_part, white,
};

verus! {

/// Trimming takes white space off both ends and nothing else: what it takes off is white, and
/// what is left does not begin or end with white space.
pub proof fn trimming_takes_the_ends(s: Seq<char>) -> (ends: (int, int))
    ensures
        0 <= ends.0 <= ends.1 <= s.len(),
        trimmed(s) == s.subrange(ends.0, ends.1),
        forall|i: int| 0 <= i < ends.0 ==> white(#[trigger] s[i]),
        forall|i: int| ends.1 <= i < s.len() ==> white(#[trigger] s[i]),
        ends.0 < ends.1 ==> !white(s[ends.0]) && !white(s[ends.1 - 1]),
    decreases s.len(),
{
    if s.len() == 0 {
        assert(s.subrange(0, 0) =~= s);
        (0, 0)
    } else if white(s[0]) {
        let rest = s.skip(1);
        let (a, b) = trimming_takes_the_ends(rest);
        assert(rest.subrange(a, b) =~= s.subrange(a + 1, b + 1));
        assert forall|i: int| 0 <= i < a + 1 implies white(#[trigger] s[i]) by {
            if i > 0 {
                assert(rest[i - 1] == s[i]);
            }
        }
        assert forall|i: int| b + 1 <= i < s.len() implies white(#[trigger] s[i]) by {
            assert(rest[i - 1] == s[i]);
        }
        (a + 1, b + 1)
    } else if white(s.last()) {
        let rest = s.drop_last();
        let (a, b) = trimming_takes_the_ends(rest);
        assert(rest.subrange(a, b) =~= s.subrange(a, b));
        assert forall|i: int| 0 <= i < a implies white(#[trigger] s[i]) by {
            assert(rest[i] == s[i]);
        }
        assert forall|i: int| b <= i < s.len() implies white(#[trigger] s[i]) by {
            if i < rest.len() {
                assert(rest[i] == s[i]);
            }
        }
        (a, b)
    } else {
        assert(s.subrange(0, s.len() as int) =~= s);
        (0, s.len() as int)
    }
}

/// Where a character stands first, it stands, and nowhere before.
pub proof fn the_first_is_the_first(s: Seq<char>, c: char)
    ensures
        first_of(s, c) <= s.len(),
        first_of(s, c) < s.len() ==> s[first_of(s, c) as int] == c,
        forall|i: int| 0 <= i < first_of(s, c) ==> #[trigger] s[i] != c,
    decreases s.len(),
{
    if s.len() > 0 && s[0] != c {
        let rest = s.skip(1);
        the_first_is_the_first(rest, c);
        assert forall|i: int| 0 <= i < first_of(s, c) implies #[trigger] s[i] != c by {
            if i > 0 {
                assert(rest[i - 1] == s[i]);
            }
        }
    }
}

/// A text with commas between pieces comes apart into just these pieces.
pub proof fn pieces_come_apart(a: Seq<char>, b: Seq<char>)
    requires
        !a.contains(','),
    ensures
        pieces_of(a) == seq![a],
        pieces_of(a.push(',') + b) == seq![a] + pieces_of(b),
{
    let s = a.push(',') + b;
    the_first_is_the_first(a, ',');
    the_first_is_the_first(s, ',');
    let k = first_of(s, ',') as int;
    assert(s[a.len() as int] == ',');
    if k < a.len() {
        assert(s[k] == a[k]);
        assert(a.contains(','));
    }
    if first_of(a, ',') < a.len() {
        assert(a.contains(','));
    }
    assert(s.take(k) =~= a);
    assert(s.skip(k + 1) =~= b);
}

/// A numeral stands for its number, with a plus sign before it or without.
pub proof fn numerals_stand_for_their_number(n: u64)
    ensures
        number_of(numeral(n as nat)) == Some(n),
        number_of(seq!['+'] + numeral(n as nat)) == Some(n),
{
    crate::text::numerals_read_back(n);
    let signed = seq!['+'] + numeral(n as nat);
    assert(signed.skip(1) =~= numeral(n as nat));
    assert(unsigned_part(signed) == numeral(n as nat));
    numerals_have_no_sign(n as nat);
}

proof fn numerals_have_no_sign(n: nat)
    ensures
        numeral(n).len() > 0,
        numeral(n)[0] != '+',
    decreases n,
{
    if n >= 10 {
        numerals_have_no_sign(n / 10);
    }
}

/// A condition is read back from the name it is given, and its label tells it from the
/// others.
pub proof fn condition_names_are_read_back(
    c: Condition,
    d: Condition,
    name: &'static str,
    r: Option<Condition>,
    label_c: &'static str,
    label_d: &'static str,
)
    requires
        call_ensures(condition_name, (c,), name),
        call_ensures(condition_from_name, (name,), r),
        call_ensures(condition_label, (c,), label_c),
        call_ensures(condition_label, (d,), label_d),
    ensures
        r == Some(c),
        label_c@ == label_d@ <==> c == d,
{
    crate::condition::conditions_read_back(c);
    reveal_strlit("token");
    reveal_strlit("diffusion");
    reveal_strlit("worldmodel");
    assert("token"@.len() == 5 && "diffusion"@.len() == 9 && "worldmodel"@.len() == 10);
}

/// An action is read back from its symbol and from its name.
pub proof fn action_names_are_read_back(
    action: Action,
    symbol: &'static str,
    name: &'static str,
    by_symbol: Result<Action, String>,
    by_name: Result<Action, String>,
)
    requires
        call_ensures(Action::symbol, (&action,), symbol),
        call_ensures(Action::name, (&action,), name),
        call_ensures(parse_action, (symbol,), by_symbol),
        call_ensures(parse_action, (name,), by_name),
    ensures
        by_symbol == Ok::<Action, String>(action),
        by_name == Ok::<Action, String>(action),
        symbol@ == (match action {
            Action::OpticalStep => "O"@,
            Action::Predict => "P"@,
            Action::Match => "M"@,
            Action::Diffuse => "D"@,
            Action::Stutter => "S"@,
        }),
        name@ == (match action {
            Action::OpticalStep => "OpticalStep"@,
            Action::Predict => "Predict"@,
            Action::Match => "Match"@,
            Action::Diffuse => "Diffuse"@,
            Action::Stutter => "Stutter"@,
        }),
{
    crate::action::names_read_back(action);
}

/// A policy is read back from the name it is given.
pub proof fn policy_names_are_read_back(
    p: MatchPolicy,
    name: &'static str,
    r: Result<MatchPolicy, String>,
)
    requires
        call_ensures(policy_name, (p,), name),
        call_ensures(parse_match_policy, (name,), r),
    ensures
        r == Ok::<MatchPolicy, String>(p),
{
    crate::policy::policies_read_back(p);
}

/// A break ends a line, with a carriage return before it or without; what stands behind the
/// last break is a line of its own, unless it is nothing.
pub proof fn breaks_end_lines(a: Seq<char>, b: Seq<char>)
    requires
        one_line(a),
    ensures
        lines_of(a.push('\n') + b) == seq![a] + lines_of(b),
        lines_of(a.push('\r').push('\n') + b) == seq![a] + lines_of(b),
        a.len() > 0 ==> lines_of(a) == seq![a],
        lines_of(Seq::empty()).len() == 0,
{
    let plain = a.push('\n') + b;
    let returned = a.push('\r').push('\n') + b;
    the_first_is_the_first(a, '\n');
    the_first_is_the_first(plain, '\n');
    the_first_is_the_first(returned, '\n');
    let k = first_of(plain, '\n') as int;
    assert(plain[a.len() as int] == '\n');
    if k < a.len() {
        assert(plain[k] == a[k]);
    }
    assert(plain.take(k) =~= a);
    assert(plain.skip(k + 1) =~= b);
    if a.len() > 0 {
        assert(a.last() == a[a.len() - 1]);
    }
    let m = first_of(returned, '\n') as int;
    assert(returned[a.len() as int + 1] == '\n');
    if m < a.len() {
        assert(returned[m] == a[m]);
    }
    assert(returned[a.len() as int] == '\r');
    assert(m == a.len() + 1);
    assert(returned.take(m) =~= a.push('\r'));
    assert(a.push('\r').drop_last() =~= a);
    assert(returned.skip(m + 1) =~= b);
    if first_of(a, '\n') < a.len() {
        assert(a[first_of(a, '\n') as int] == '\n');
    }
}

/// A list of lines is written with one break, and nothing else, behind each.
pub proof fn lines_are_broken_by_one_character(line: Seq<char>, rest: Seq<Seq<char>>)
    ensures
        broken_lines(Seq::empty()).len() == 0,
        broken_lines(seq![line] + rest) == line.push('\n') + broken_lines(rest),
{
    let ls = seq![line] + rest;
    assert(ls.skip(1) =~= rest);
}

/// A numeral is written with the usual digits, the highest first: one more digit behind it
/// stands for ten times the number and that digit. It has no leading zero.
pub proof fn numerals_go_by_tens(n: nat, d: nat)
    requires
        d < 10,
    ensures
        n > 0 ==> numeral(10 * n + d) == numeral(n) + numeral(d),
        numeral(d).len() == 1,
        numeral(d)[0] as int == '0' as int + d,
        n > 0 ==> numeral(n)[0] != '0',
    decreases n,
{
    if n > 0 {
        assert((10 * n + d) / 10 == n);
        assert((10 * n + d) % 10 == d);
        assert(numeral(10 * n + d) =~= numeral(n) + numeral(d));
        if n >= 10 {
            numerals_go_by_tens(n / 10, n % 10);
            assert(10 * (n / 10) + n % 10 == n);
            assert(numeral(n)[0] == numeral(n / 10)[0]);
        }
    }
}

/// The digits of a hash are the usual ones.
pub proof fn hexadecimal_digits_are_the_usual(d: nat)
    requires
        d < 16,
    ensures
        d < 10 ==> crate::receipt::hex_char(d) as int == '0' as int + d,
        d >= 10 ==> crate::receipt::hex_char(d) as int == 'a' as int + d - 10,
{
}

} // verus!
