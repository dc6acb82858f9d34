//! Plain text: decimal numerals and the pieces that messages are made of.

use vstd::prelude::*;
use vstd::string::*;

verus! {

/// The character of a decimal digit.
pub open spec fn digit_char(d: nat) -> char {
    if d == 0 {
        '0'
    } else if d == 1 {
        '1'
    } else if d == 2 {
        '2'
    } else if d == 3 {
        '3'
    } else if d == 4 {
        '4'
    } else if d == 5 {
        '5'
    } else if d == 6 {
        '6'
    } else if d == 7 {
        '7'
    } else if d == 8 {
        '8'
    } else {
        '9'
    }
}

/// The decimal numeral of `n`, without leading zeros.
pub open spec fn numeral(n: nat) -> Seq<char>
    decreases n,
{
    if n < 10 {
        seq![digit_char(n)]
    } else {
        numeral(n / 10).push(digit_char(n % 10))
    }
}

/// A decimal digit as text.
fn digit(d: u64) -> (r: &'static str)
    requires
        d < 10,
    ensures
        r@ == seq![digit_char(d as nat)],
{
    proof {
        reveal_strlit("0");
        reveal_strlit("1");
        reveal_strlit("2");
        reveal_strlit("3");
        reveal_strlit("4");
        reveal_strlit("5");
        reveal_strlit("6");
        reveal_strlit("7");
        reveal_strlit("8");
        reveal_strlit("9");
    }
    let r = match d {
        0 => "0",
        1 => "1",
        2 => "2",
        3 => "3",
        4 => "4",
        5 => "5",
        6 => "6",
        7 => "7",
        8 => "8",
        _ => "9",
    };
    assert(r@ =~= seq![digit_char(d as nat)]);
    r
}

/// The decimal numeral of a number.
pub fn decimal(n: u64) -> (r: String)
    ensures
        r@ == numeral(n as nat),
    decreases n,
{
    if n < 10 {
        digit(n).to_string()
    } else {
        let mut text = decimal(n / 10);
        text.append(digit(n % 10));
        assert(text@ =~= numeral(n as nat));
        text
    }
}

/// Two texts, one behind the other.
pub fn join2(a: &str, b: &str) -> (r: String)
    ensures
        r@ == a@ + b@,
{
    let mut text = a.to_string();
    text.append(b);
    text
}

/// Three texts, one behind the other.
pub fn join3(a: &str, b: &str, c: &str) -> (r: String)
    ensures
        r@ == a@ + b@ + c@,
{
    let mut text = join2(a, b);
    text.append(c);
    text
}

/// Four texts, one behind the other.
pub fn join4(a: &str, b: &str, c: &str, d: &str) -> (r: String)
    ensures
        r@ == a@ + b@ + c@ + d@,
{
    let mut text = join3(a, b, c);
    text.append(d);
    text
}

/// Five texts, one behind the other.
pub fn join5(a: &str, b: &str, c: &str, d: &str, e: &str) -> (r: String)
    ensures
        r@ == a@ + b@ + c@ + d@ + e@,
{
    let mut text = join4(a, b, c, d);
    text.append(e);
    text
}

/// Whether two texts are the same.
pub fn same(a: &str, b: &str) -> (r: bool)
    ensures
        r == (a@ == b@),
{
    a.to_string() == b.to_string()
}

/// The lower-case form of an ASCII character.
pub open spec fn ascii_lower(c: char) -> char {
    if 'A' <= c <= 'Z' {
        (c as u32 + 32) as char
    } else {
        c
    }
}

/// A text with its ASCII capitals made small.
pub open spec fn ascii_lowered(s: Seq<char>) -> Seq<char> {
    s.map_values(|c: char| ascii_lower(c))
}

/// What `str::to_lowercase` makes of a text that is not all ASCII.
pub uninterp spec fn lowercase(s: Seq<char>) -> Seq<char>;

/// A text in small letters.
pub open spec fn lowered(s: Seq<char>) -> Seq<char> {
    if vstd::utf8::is_ascii_chars(s) {
        ascii_lowered(s)
    } else {
        lowercase(s)
    }
}

/// Calls `str::to_lowercase`. Claimed of it: the result depends on the text alone,
/// and in a text of ASCII characters the capitals become small letters and all
/// else stays. What it does beyond ASCII, by the tables of Unicode, is left to the
/// name [`lowercase`].
#[verifier::external_body]
pub(crate) fn to_lowercase(s: &str) -> (r: String)
    ensures
        r@ == if vstd::utf8::is_ascii_chars(s@) {
            ascii_lowered(s@)
        } else {
            lowercase(s@)
        },
{
    s.to_lowercase()
}

// ---------------------------------------------------------------------------
// Lines
// ---------------------------------------------------------------------------

/// Calls `str::split_once` with a character. Claimed of it: it cuts the text at the
/// first place where the character stands, and leaves the character out; it gives
/// nothing where the character does not occur.
#[verifier::external_body]
fn split_once<'a>(s: &'a str, c: char) -> (r: Option<(&'a str, &'a str)>)
    ensures
        match r {
            Some((a, b)) => s@ == a@.push(c) + b@ && !a@.contains(c),
            None => !s@.contains(c),
        },
{
    s.split_once(c)
}

/// Calls `str::strip_suffix` with a character. Claimed of it: it takes one such
/// character off the end, and gives nothing where the text does not end in it.
#[verifier::external_body]
fn strip_suffix<'a>(s: &'a str, c: char) -> (r: Option<&'a str>)
    ensures
        match r {
            Some(a) => s@ == a@.push(c),
            None => s@.len() == 0 || s@.last() != c,
        },
{
    s.strip_suffix(c)
}

/// Whether a character has the Unicode property White_Space.
pub open spec fn white(c: char) -> bool {
    ||| '\u{9}' <= c <= '\u{d}'
    ||| c == ' '
    ||| c == '\u{85}'
    ||| c == '\u{a0}'
    ||| c == '\u{1680}'
    ||| '\u{2000}' <= c <= '\u{200a}'
    ||| c == '\u{2028}'
    ||| c == '\u{2029}'
    ||| c == '\u{202f}'
    ||| c == '\u{205f}'
    ||| c == '\u{3000}'
}

/// A text without the white space at its ends.
pub open spec fn trimmed(s: Seq<char>) -> Seq<char>
    decreases s.len(),
{
    if s.len() == 0 {
        s
    } else if white(s[0]) {
        trimmed(s.skip(1))
    } else if white(s.last()) {
        trimmed(s.drop_last())
    } else {
        s
    }
}

/// Calls `str::trim`. Claimed of it: it takes the white space off both ends, where
/// white space is what Unicode calls White_Space.
#[verifier::external_body]
pub(crate) fn trim<'a>(s: &'a str) -> (r: &'a str)
    ensures
        r@ == trimmed(s@),
{
    s.trim()
}

/// Trimming keeps what is not white space.
pub proof fn trimming_keeps(s: Seq<char>, i: int)
    requires
        0 <= i < s.len(),
        !white(s[i]),
    ensures
        trimmed(s).len() > 0,
    decreases s.len(),
{
    if white(s[0]) {
        trimming_keeps(s.skip(1), i - 1);
    } else if white(s.last()) {
        trimming_keeps(s.drop_last(), i);
    }
}

/// Where a character stands first; the length of the text where it does not.
pub open spec fn first_of(s: Seq<char>, c: char) -> nat
    decreases s.len(),
{
    if s.len() == 0 || s[0] == c {
        0
    } else {
        first_of(s.skip(1), c) + 1
    }
}

/// A line without the carriage return that may stand before its break.
pub open spec fn chomped(s: Seq<char>) -> Seq<char> {
    if s.len() > 0 && s.last() == '\r' {
        s.drop_last()
    } else {
        s
    }
}

/// The lines of a text. A break ends a line, so a text that ends in one has no empty
/// line behind it.
pub open spec fn lines_of(s: Seq<char>) -> Seq<Seq<char>>
    decreases s.len(),
{
    let k = first_of(s, '\n') as int;
    if s.len() == 0 {
        Seq::empty()
    } else if k < s.len() {
        seq![chomped(s.take(k))] + lines_of(s.skip(k + 1))
    } else {
        seq![s]
    }
}

/// A list of lines as one text, each with a break behind it.
pub open spec fn broken_lines(ls: Seq<Seq<char>>) -> Seq<char>
    decreases ls.len(),
{
    if ls.len() == 0 {
        Seq::empty()
    } else {
        ls[0].push('\n') + broken_lines(ls.skip(1))
    }
}

/// Whether a text is one line.
pub open spec fn one_line(s: Seq<char>) -> bool {
    forall|i: int| 0 <= i < s.len() ==> #[trigger] s[i] != '\n' && s[i] != '\r'
}

proof fn first_found(a: Seq<char>, c: char, b: Seq<char>)
    requires
        !a.contains(c),
    ensures
        first_of(a.push(c) + b, c) == a.len(),
    decreases a.len(),
{
    let s = a.push(c) + b;
    if a.len() > 0 {
        assert(a[0] != c) by {
            assert(a.contains(a[0]));
        }
        assert(s[0] == a[0]);
        let rest = a.skip(1);
        assert(!rest.contains(c)) by {
            if rest.contains(c) {
                let i = choose|i: int| 0 <= i < rest.len() && rest[i] == c;
                assert(a[i + 1] == c);
            }
        }
        first_found(rest, c, b);
        assert(s.skip(1) =~= rest.push(c) + b);
    } else {
        assert(s[0] == c);
    }
}

proof fn none_found(s: Seq<char>, c: char)
    requires
        !s.contains(c),
    ensures
        first_of(s, c) == s.len(),
    decreases s.len(),
{
    if s.len() > 0 {
        assert(s[0] != c) by {
            assert(s.contains(s[0]));
        }
        let rest = s.skip(1);
        assert(!rest.contains(c)) by {
            if rest.contains(c) {
                let i = choose|i: int| 0 <= i < rest.len() && rest[i] == c;
                assert(s[i + 1] == c);
            }
        }
        none_found(rest, c);
    }
}

/// The first line of a text that starts with one, and the lines behind it.
proof fn lines_split(a: Seq<char>, b: Seq<char>)
    requires
        !a.contains('\n'),
    ensures
        lines_of(a.push('\n') + b) == seq![chomped(a)] + lines_of(b),
{
    let s = a.push('\n') + b;
    first_found(a, '\n', b);
    assert(s.take(a.len() as int) =~= a);
    assert(s.skip(a.len() as int + 1) =~= b);
}

/// Lines that are put together come apart again.
pub proof fn lines_come_apart(ls: Seq<Seq<char>>)
    requires
        forall|i: int| 0 <= i < ls.len() ==> one_line(#[trigger] ls[i]),
    ensures
        lines_of(broken_lines(ls)) == ls,
    decreases ls.len(),
{
    if ls.len() > 0 {
        let rest = ls.skip(1);
        assert forall|i: int| 0 <= i < rest.len() implies one_line(#[trigger] rest[i]) by {
            assert(one_line(ls[i + 1]));
        }
        lines_come_apart(rest);
        assert(one_line(ls[0]));
        assert(!ls[0].contains('\n'));
        lines_split(ls[0], broken_lines(rest));
        assert(chomped(ls[0]) == ls[0]);
        assert(seq![ls[0]] + rest =~= ls);
    } else {
        assert(lines_of(broken_lines(ls)) =~= ls);
    }
}

/// One more line behind the others.
pub proof fn lines_grow(ls: Seq<Seq<char>>, line: Seq<char>)
    ensures
        broken_lines(ls.push(line)) == broken_lines(ls) + line.push('\n'),
    decreases ls.len(),
{
    if ls.len() > 0 {
        lines_grow(ls.skip(1), line);
        assert(ls.push(line).skip(1) =~= ls.skip(1).push(line));
        assert(broken_lines(ls.push(line)) =~= broken_lines(ls) + line.push('\n'));
    } else {
        assert(ls.push(line).skip(1).len() == 0);
        assert(ls.push(line)[0] == line);
        assert(broken_lines(ls.push(line).skip(1)) == Seq::<char>::empty());
        assert(broken_lines(ls.push(line)) =~= broken_lines(ls) + line.push('\n'));
    }
}

/// One line more of a list of lines.
pub proof fn lines_taken(ls: Seq<Seq<char>>, i: int)
    requires
        0 <= i < ls.len(),
    ensures
        broken_lines(ls.take(i + 1)) == broken_lines(ls.take(i)) + ls[i].push('\n'),
{
    lines_grow(ls.take(i), ls[i]);
    assert(ls.take(i).push(ls[i]) =~= ls.take(i + 1));
}

/// Puts a line and its break behind a text.
pub fn put_line(out: &mut String, line: &str)
    ensures
        final(out)@ == old(out)@ + line@.push('\n'),
{
    out.append(line);
    out.append("\n");
    proof {
        reveal_strlit("\n");
        assert(out@ =~= old(out)@ + line@.push('\n'));
    }
}

/// The views of a list of texts.
pub open spec fn views(v: Seq<&str>) -> Seq<Seq<char>> {
    v.map_values(|s: &str| s@)
}

/// Cuts a text into its lines.
pub fn lines<'a>(s: &'a str) -> (r: Vec<&'a str>)
    ensures
        views(r@) == lines_of(s@),
{
    let mut found: Vec<&'a str> = Vec::new();
    let mut rest: &'a str = s;
    assert(views(found@) + lines_of(rest@) =~= lines_of(s@));
    loop
        invariant
            views(found@) + lines_of(rest@) == lines_of(s@),
        decreases rest@.len(),
    {
        let ghost so_far = views(found@);
        match split_once(rest, '\n') {
            Some((line, behind)) => {
                proof {
                    lines_split(line@, behind@);
                }
                let line = match strip_suffix(line, '\r') {
                    Some(bare) => {
                        assert(line@.drop_last() =~= bare@);
                        bare
                    },
                    None => line,
                };
                found.push(line);
                assert(views(found@) =~= so_far.push(line@));
                assert(so_far + (seq![line@] + lines_of(behind@)) =~= so_far.push(line@)
                    + lines_of(behind@));
                rest = behind;
            },
            None => {
                proof {
                    none_found(rest@, '\n');
                }
                if !rest.is_empty() {
                    found.push(rest);
                    assert(views(found@) =~= so_far.push(rest@));
                    assert(so_far + seq![rest@] =~= so_far.push(rest@));
                } else {
                    assert(lines_of(rest@) =~= Seq::empty());
                }
                assert(views(found@) =~= lines_of(s@));
                return found;
            },
        }
    }
}

// ---------------------------------------------------------------------------
// Lists
// ---------------------------------------------------------------------------

/// The pieces of a text between its commas. There is one more of them than there are
/// commas.
pub open spec fn pieces_of(s: Seq<char>) -> Seq<Seq<char>>
    decreases s.len(),
{
    let k = first_of(s, ',') as int;
    if k < s.len() {
        seq![s.take(k)] + pieces_of(s.skip(k + 1))
    } else {
        seq![s]
    }
}

/// Cuts a text at its commas.
pub fn pieces<'a>(s: &'a str) -> (r: Vec<&'a str>)
    ensures
        views(r@) == pieces_of(s@),
{
    let mut found: Vec<&'a str> = Vec::new();
    let mut rest: &'a str = s;
    assert(views(found@) + pieces_of(rest@) =~= pieces_of(s@));
    loop
        invariant
            views(found@) + pieces_of(rest@) == pieces_of(s@),
        decreases rest@.len(),
    {
        let ghost so_far = views(found@);
        match split_once(rest, ',') {
            Some((piece, behind)) => {
                proof {
                    first_found(piece@, ',', behind@);
                    assert(rest@.take(piece@.len() as int) =~= piece@);
                    assert(rest@.skip(piece@.len() as int + 1) =~= behind@);
                }
                found.push(piece);
                assert(views(found@) =~= so_far.push(piece@));
                assert(so_far + (seq![piece@] + pieces_of(behind@)) =~= so_far.push(piece@)
                    + pieces_of(behind@));
                rest = behind;
            },
            None => {
                proof {
                    none_found(rest@, ',');
                }
                found.push(rest);
                assert(views(found@) =~= so_far.push(rest@));
                assert(so_far + seq![rest@] =~= so_far.push(rest@));
                return found;
            },
        }
    }
}

/// Whether a text is made of decimal digits alone.
pub open spec fn all_digits(s: Seq<char>) -> bool {
    forall|i: int| 0 <= i < s.len() ==> '0' <= #[trigger] s[i] <= '9'
}

/// The number that a row of decimal digits stands for.
pub open spec fn digits_value(s: Seq<char>) -> nat
    decreases s.len(),
{
    if s.len() == 0 {
        0
    } else {
        10 * digits_value(s.drop_last()) + (s.last() as nat - '0' as nat) as nat
    }
}

/// A text without the plus sign that it may start with.
pub open spec fn unsigned_part(s: Seq<char>) -> Seq<char> {
    if s.len() > 0 && s[0] == '+' {
        s.skip(1)
    } else {
        s
    }
}

/// The number that a text stands for: decimal digits, of which there is at least one,
/// with or without a plus sign before them, and a value of at most 64 bits.
pub open spec fn number_of(s: Seq<char>) -> Option<u64> {
    let digits = unsigned_part(s);
    if digits.len() > 0 && all_digits(digits) && digits_value(digits) <= u64::MAX {
        Some(digits_value(digits) as u64)
    } else {
        None
    }
}

/// What `str::parse` says of a text that stands for no number of the type `u64`.
pub uninterp spec fn number_complaint(s: Seq<char>) -> Seq<char>;

/// Calls `str::parse` for the type `u64`, and hands an error on as its text. Claimed of
/// it: it reads decimal digits behind an optional plus sign, it refuses every other text
/// and every value above 64 bits, and what it then says depends on the text alone.
#[verifier::external_body]
pub(crate) fn parse_u64(s: &str) -> (r: Result<u64, String>)
    ensures
        match number_of(s@) {
            Some(n) => r == Ok::<u64, String>(n),
            None => r matches Err(e) && e@ == number_complaint(s@),
        },
{
    match s.parse::<u64>() {
        Ok(n) => Ok(n),
        Err(e) => Err(e.to_string()),
    }
}

proof fn numerals_are_digits(n: nat)
    ensures
        numeral(n).len() > 0,
        all_digits(numeral(n)),
        digits_value(numeral(n)) == n,
    decreases n,
{
    let s = numeral(n);
    if n >= 10 {
        numerals_are_digits(n / 10);
        assert(s.drop_last() =~= numeral(n / 10));
        assert forall|i: int| 0 <= i < s.len() implies '0' <= #[trigger] s[i] <= '9' by {
            if i < s.len() - 1 {
                assert(s[i] == numeral(n / 10)[i]);
            }
        }
    } else {
        assert(s.drop_last().len() == 0);
        assert(digits_value(s.drop_last()) == 0);
    }
}

/// The decimal numeral of a number is read as that number.
pub proof fn numerals_read_back(n: u64)
    ensures
        number_of(numeral(n as nat)) == Some(n),
{
    numerals_are_digits(n as nat);
    assert(numeral(n as nat)[0] != '+');
}

} // verus!
