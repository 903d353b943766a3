//! Text as sequences of characters: decimal numerals, the counting of a
//! character, and the joining of path segments.

use vstd::prelude::*;
use vstd::string::*;

verus! {

/// The character that stands for one decimal digit.
pub open spec fn digit(d: int) -> char {
    if d == 0 {
        '0'
    } else if d == 1 {
        '1'
    } else if d == 2 {
        '2'
    } else if d == 3 {
        '3'
    } else if d == 4 {
        '4'
    } else if d == 5 {
        '5'
    } else if d == 6 {
        '6'
    } else if d == 7 {
        '7'
    } else if d == 8 {
        '8'
    } else {
        '9'
    }
}

/// The decimal numeral of a natural number, without leading zeros.
pub open spec fn decimal(n: nat) -> Seq<char>
    decreases n,
{
    if n < 10 {
        seq![digit(n as int)]
    } else {
        decimal(n / 10).push(digit((n % 10) as int))
    }
}

/// The decimal numeral of an integer: a minus sign before the numeral of a
/// negative number's magnitude.
pub open spec fn signed_decimal(i: int) -> Seq<char> {
    if i < 0 {
        seq!['-'] + decimal((-i) as nat)
    } else {
        decimal(i as nat)
    }
}

/// How often `c` occurs in `s`.
pub open spec fn count_char(s: Seq<char>, c: char) -> nat
    decreases s.len(),
{
    if s.len() == 0 {
        0
    } else {
        count_char(s.drop_last(), c) + if s.last() == c {
            1nat
        } else {
            0nat
        }
    }
}

/// Whether `needle` occurs in `hay` as a run of consecutive characters.
pub open spec fn contains_text(hay: Seq<char>, needle: Seq<char>) -> bool {
    exists|i: int|
        0 <= i && i + needle.len() <= hay.len() && #[trigger] hay.subrange(
            i,
            i + needle.len(),
        ) == needle
}

/// Whether `s` is not empty and ends in a slash.
pub open spec fn ends_in_slash(s: Seq<char>) -> bool {
    s.len() > 0 && s.last() == '/'
}

/// The path of `name` below the directory `parent`: one slash stands between
/// the two, and none is added where `parent` already ends in one.
pub open spec fn join_path(parent: Seq<char>, name: Seq<char>) -> Seq<char> {
    if ends_in_slash(parent) {
        parent + name
    } else {
        parent + seq!['/'] + name
    }
}

/// The texts of `parts` in a row, with `separator` between each two.
pub open spec fn join_with(parts: Seq<Seq<char>>, separator: Seq<char>) -> Seq<char>
    decreases parts.len(),
{
    if parts.len() == 0 {
        Seq::<char>::empty()
    } else if parts.len() == 1 {
        parts[0]
    } else {
        join_with(parts.drop_last(), separator) + separator + parts.last()
    }
}

/// Counting distributes over concatenation.
pub proof fn lemma_count_char_add(a: Seq<char>, b: Seq<char>, c: char)
    ensures
        count_char(a + b, c) == count_char(a, c) + count_char(b, c),
    decreases b.len(),
{
    if b.len() == 0 {
        assert(a + b =~= a);
    } else {
        assert((a + b).drop_last() =~= a + b.drop_last());
        lemma_count_char_add(a, b.drop_last(), c);
    }
}

/// A sequence of one character holds `c` once if it is `c`, and else not at all.
pub proof fn lemma_count_char_single(x: char, c: char)
    ensures
        count_char(seq![x], c) == if x == c {
            1nat
        } else {
            0nat
        },
{
    assert(seq![x].drop_last() =~= Seq::<char>::empty());
    assert(count_char(Seq::<char>::empty(), c) == 0);
}

/// A decimal numeral holds digits only; in particular no field separator.
pub proof fn lemma_decimal_has_digits_only(n: nat, c: char)
    requires
        !('0' <= c <= '9'),
    ensures
        count_char(decimal(n), c) == 0,
    decreases n,
{
    if n < 10 {
        lemma_count_char_single(digit(n as int), c);
    } else {
        lemma_decimal_has_digits_only(n / 10, c);
        assert(decimal(n).drop_last() =~= decimal(n / 10));
    }
}

/// A text that appears between two others is contained in the whole.
pub proof fn lemma_contains_text_middle(before: Seq<char>, needle: Seq<char>, after: Seq<char>)
    ensures
        contains_text(before + needle + after, needle),
{
    let hay = before + needle + after;
    let i = before.len() as int;
    assert(hay.subrange(i, i + needle.len()) =~= needle);
}

/// What `join_with` makes of one more part.
pub proof fn lemma_join_with_push(parts: Seq<Seq<char>>, part: Seq<char>, separator: Seq<char>)
    ensures
        join_with(parts.push(part), separator) == if parts.len() == 0 {
            part
        } else {
            join_with(parts, separator) + separator + part
        },
{
    assert(parts.push(part).drop_last() =~= parts);
}

fn digit_str(d: u64) -> (s: &'static str)
    requires
        d < 10,
    ensures
        s@ == seq![digit(d as int)],
{
    proof {
        reveal_strlit("0");
        reveal_strlit("1");
        reveal_strlit("2");
        reveal_strlit("3");
        reveal_strlit("4");
        reveal_strlit("5");
        reveal_strlit("6");
        reveal_strlit("7");
        reveal_strlit("8");
        reveal_strlit("9");
    }
    let s = if d == 0 {
        "0"
    } else if d == 1 {
        "1"
    } else if d == 2 {
        "2"
    } else if d == 3 {
        "3"
    } else if d == 4 {
        "4"
    } else if d == 5 {
        "5"
    } else if d == 6 {
        "6"
    } else if d == 7 {
        "7"
    } else if d == 8 {
        "8"
    } else {
        "9"
    };
    assert(s@ =~= seq![digit(d as int)]);
    s
}

/// Writes a number as its decimal numeral.
pub fn u64_to_string(n: u64) -> (s: String)
    ensures
        s@ == decimal(n as nat),
    decreases n,
{
    if n < 10 {
        String::from_str(digit_str(n))
    } else {
        let mut s = u64_to_string(n / 10);
        s.append(digit_str(n % 10));
        s
    }
}

/// Whether a text ends in a slash.
pub fn string_ends_in_slash(s: &String) -> (b: bool)
    ensures
        b == ends_in_slash(s@),
{
    let n = s.as_str().unicode_len();
    n > 0 && s.as_str().get_char(n - 1) == '/'
}

/// Appends `name` to the path `parent`, with one slash between them.
pub fn push_segment(parent: String, name: &str) -> (path: String)
    ensures
        path@ == join_path(parent@, name@),
{
    let mut path = parent;
    if !string_ends_in_slash(&path) {
        proof {
            reveal_strlit("/");
            assert("/"@ =~= seq!['/']);
        }
        path.append("/");
    }
    path.append(name);
    path
}

} // verus!
