//! Laws of the text primitives.

use vstd::arithmetic::power::pow;
use vstd::prelude::*;

use crate::order::text_less;
use crate::text::{
    before_first, decimal, hex, is_blank, is_white_space, joined, lines, lower_ascii, occurs_at,
    last_occurrence, padded, split_at_last, without_prefix, without_suffix,
};

verus! {

/// Taking off a prefix and putting it back gives the text, and it can be taken
/// off exactly where the text starts with it.
pub proof fn prefix_comes_off_and_on(s: Seq<char>, prefix: Seq<char>, rest: Seq<char>)
    ensures
        (without_prefix(s, prefix) == Some(rest)) == (s == prefix + rest),
        without_prefix(s, prefix) is None ==> s != prefix + rest,
{
    if s == prefix + rest {
        assert(s.subrange(0, prefix.len() as int) =~= prefix);
        assert(s.skip(prefix.len() as int) =~= rest);
    }
    if prefix.is_prefix_of(s) {
        assert(s =~= prefix + s.skip(prefix.len() as int));
    }
}

/// Taking off a suffix and putting it back gives the text, and it can be taken
/// off exactly where the text ends with it.
pub proof fn suffix_comes_off_and_on(s: Seq<char>, suffix: Seq<char>, rest: Seq<char>)
    ensures
        (without_suffix(s, suffix) == Some(rest)) == (s == rest + suffix),
        without_suffix(s, suffix) is None ==> s != rest + suffix,
{
    if s == rest + suffix {
        assert(s.subrange(s.len() - suffix.len(), s.len() as int) =~= suffix);
        assert(s.take(s.len() - suffix.len()) =~= rest);
    }
    if suffix.is_suffix_of(s) {
        assert(s =~= s.take(s.len() - suffix.len()) + suffix);
    }
}

/// The part before a character is the longest start of the text without it.
pub proof fn part_before_stops_at_the_first(s: Seq<char>, c: char)
    ensures
        before_first(s, c).len() <= s.len(),
        s.take(before_first(s, c).len() as int) == before_first(s, c),
        !before_first(s, c).contains(c),
        before_first(s, c).len() < s.len() ==> s[before_first(s, c).len() as int] == c,
    decreases s.len(),
{
    if s.len() > 0 && s[0] != c {
        part_before_stops_at_the_first(s.skip(1), c);
        let tail = before_first(s.skip(1), c);
        assert(s.take(before_first(s, c).len() as int) =~= seq![s[0]] + s.skip(1).take(
            tail.len() as int,
        ));
        if before_first(s, c).contains(c) {
            let i = choose|i: int|
                0 <= i < before_first(s, c).len() && before_first(s, c)[i] == c;
            assert(tail[i - 1] == c);
        }
    }
}

/// A text is split at the last place where a pattern stands: the two sides and
/// the pattern make up the text, and the pattern stands nowhere behind it.
pub proof fn split_is_at_the_last_place(s: Seq<char>, pattern: Seq<char>)
    ensures
        match split_at_last(s, pattern) {
            Some((before, after)) => s == before + pattern + after && forall|i: int|
                before.len() < i ==> !#[trigger] occurs_at(s, pattern, i),
            None => forall|i: int| !#[trigger] occurs_at(s, pattern, i),
        },
{
    lemma_last(s, pattern, s.len() + 1);
    if let Some(at) = last_occurrence(s, pattern, s.len() + 1) {
        let n = at as int;
        assert(s =~= s.take(n) + pattern + s.skip(n + pattern.len())) by {
            assert(s.subrange(n, n + pattern.len()) == pattern);
            assert forall|i: int| 0 <= i < pattern.len() implies s[n + i] == pattern[i] by {
                assert(s.subrange(n, n + pattern.len())[i] == s[n + i]);
            }
        }
    }
}

proof fn lemma_last(s: Seq<char>, pattern: Seq<char>, end: nat)
    ensures
        match last_occurrence(s, pattern, end) {
            Some(at) => at < end && occurs_at(s, pattern, at as int) && forall|i: int|
                at < i < end ==> !#[trigger] occurs_at(s, pattern, i),
            None => forall|i: int| 0 <= i < end ==> !#[trigger] occurs_at(s, pattern, i),
        },
    decreases end,
{
    if end > 0 {
        lemma_last(s, pattern, (end - 1) as nat);
    }
}

/// Joining puts the separator between neighbours and nowhere else: one part is
/// itself, and two joined lists are joined by one separator.
pub proof fn joining_separates_neighbours(
    first: Seq<Seq<char>>,
    second: Seq<Seq<char>>,
    separator: Seq<char>,
)
    requires
        first.len() > 0,
        second.len() > 0,
    ensures
        joined(Seq::empty(), separator) == Seq::<char>::empty(),
        joined(seq![first[0]], separator) == first[0],
        joined(first + second, separator) == joined(first, separator) + separator + joined(
            second,
            separator,
        ),
    decreases second.len(),
{
    let both = first + second;
    assert(both.drop_last() =~= first + second.drop_last());
    assert(both.last() == second.last());
    if second.len() == 1 {
        assert(first + second.drop_last() =~= first);
        assert(joined(second, separator) == second[0]);
    } else {
        joining_separates_neighbours(first, second.drop_last(), separator);
    }
    assert(joined(both, separator) =~= joined(first, separator) + separator + joined(
        second,
        separator,
    ));
}

/// The first line ends at the first line feed, without a carriage return in
/// front of it; what follows are the lines of the rest. A text without a line
/// feed is one line, and an empty text has none.
pub proof fn lines_end_at_line_feeds(line: Seq<char>, rest: Seq<char>)
    requires
        !line.contains('\n'),
    ensures
        lines(Seq::empty()) == Seq::<Seq<char>>::empty(),
        line.len() > 0 ==> lines(line) == seq![line],
        (line.len() == 0 || line.last() != '\r') ==> lines(line + seq!['\n'] + rest) == seq![line]
            + lines(rest),
        lines(line + seq!['\r', '\n'] + rest) == seq![line] + lines(rest),
{
    let bare = line + seq!['\n'] + rest;
    let closed = line + seq!['\r', '\n'] + rest;
    let n = line.len() as int;
    crate::text::lemma_before_first(line, '\n', n);
    assert(line.take(n) =~= line);
    crate::text::lemma_before_first(bare, '\n', n);
    assert(bare.take(n) =~= line);
    assert(bare.skip(n + 1) =~= rest);
    crate::text::lemma_before_first(closed, '\n', n + 1);
    assert(closed.take(n + 1) =~= line.push('\r'));
    assert(line.push('\r').drop_last() =~= line);
    assert(closed.skip(n + 2) =~= rest);
}

/// A text is blank exactly where both of its parts are.
pub proof fn blank_parts_make_blank_texts(first: Seq<char>, second: Seq<char>)
    ensures
        is_blank(first + second) == (is_blank(first) && is_blank(second)),
        is_blank(Seq::empty()),
{
    if is_blank(first + second) {
        assert forall|i: int| 0 <= i < first.len() implies is_white_space(#[trigger] first[i]) by {
            assert((first + second)[i] == first[i]);
        }
        assert forall|i: int| 0 <= i < second.len() implies is_white_space(
            #[trigger] second[i],
        ) by {
            assert((first + second)[first.len() + i] == second[i]);
        }
    }
}

/// The characters that count as white space are those of Unicode's property, by
/// their code points; no printable ASCII character but the space is one.
pub proof fn white_space_is_known(c: char)
    ensures
        (0x21 <= c as u32 <= 0x7e) ==> !is_white_space(c),
        (c as u32) < 0x80 ==> is_white_space(c) == (9 <= c as u32 <= 13 || c as u32 == 32),
        0x80 <= c as u32 ==> is_white_space(c) == (c as u32 == 0x85 || c as u32 == 0xa0 || c as u32
            == 0x1680 || 0x2000 <= c as u32 <= 0x200a || c as u32 == 0x2028 || c as u32 == 0x2029
            || c as u32 == 0x202f || c as u32 == 0x205f || c as u32 == 0x3000),
{
}

/// The number that some digits stand for.
pub open spec fn value_of(digits: Seq<char>, base: nat) -> nat
    decreases digits.len(),
{
    if digits.len() == 0 {
        0
    } else {
        value_of(digits.drop_last(), base) * base + digit_value(digits.last())
    }
}

/// The number that a digit stands for.
pub open spec fn digit_value(c: char) -> nat {
    if '0' <= c <= '9' {
        (c as u32 - 48) as nat
    } else {
        (c as u32 - 87) as nat
    }
}

/// A number in base ten stands for itself, in digits, without a zero in front
/// unless it is one digit long.
pub proof fn decimal_stands_for_its_number(n: nat)
    ensures
        value_of(decimal(n), 10) == n,
        decimal(n).len() > 0,
        decimal(n).len() > 1 ==> decimal(n)[0] != '0',
        forall|i: int| 0 <= i < decimal(n).len() ==> '0' <= #[trigger] decimal(n)[i] <= '9',
    decreases n,
{
    reveal_with_fuel(value_of, 2);
    if n >= 10 {
        decimal_stands_for_its_number(n / 10);
        assert(decimal(n).drop_last() =~= decimal(n / 10));
        if n / 10 < 10 {
            assert(decimal(n / 10)[0] != '0');
        }
    } else {
        assert(decimal(n).drop_last() =~= Seq::<char>::empty());
    }
}

/// A number in base sixteen has the digits that were asked for, and stands for
/// what is left of it when the others are dropped.
pub proof fn hex_stands_for_its_number(n: nat, digits: nat)
    ensures
        hex(n, digits).len() == digits,
        n < pow(16, digits) ==> value_of(hex(n, digits), 16) == n,
        forall|i: int|
            0 <= i < digits ==> ('0' <= #[trigger] hex(n, digits)[i] <= '9' || 'a' <= hex(
                n,
                digits,
            )[i] <= 'f'),
    decreases digits,
{
    reveal(pow);
    if digits > 0 {
        hex_stands_for_its_number(n / 16, (digits - 1) as nat);
        assert(hex(n, digits).drop_last() =~= hex(n / 16, (digits - 1) as nat));
        if n < pow(16, digits) {
            assert(n / 16 < pow(16, (digits - 1) as nat));
        }
    }
}

/// Only ASCII capitals change case, each to its own small letter.
pub proof fn only_capitals_become_small(k: nat, c: char)
    requires
        k < 26,
    ensures
        lower_ascii((65 + k) as char) == (97 + k) as char,
        !('A' <= c <= 'Z') ==> lower_ascii(c) == c,
        !('A' <= lower_ascii(c) <= 'Z'),
{
}

/// Padding keeps the text in front and fills up with spaces to the width, never
/// beyond it.
pub proof fn padding_fills_with_spaces(s: Seq<char>, width: nat)
    ensures
        padded(s, width).len() == if s.len() >= width {
            s.len()
        } else {
            width
        },
        padded(s, width).take(s.len() as int) == s,
        forall|i: int| s.len() <= i < padded(s, width).len() ==> #[trigger] padded(s, width)[i]
            == ' ',
{
    assert(padded(s, width).take(s.len() as int) =~= s);
}

/// Names are ordered like words in a dictionary: the first character in which
/// they differ decides, and a start of a name comes before it.
pub proof fn first_difference_decides(
    common: Seq<char>,
    a: char,
    b: char,
    first: Seq<char>,
    second: Seq<char>,
)
    ensures
        a != b ==> text_less(common + seq![a] + first, common + seq![b] + second) == (a < b),
        text_less(common, common + seq![a] + first),
        !text_less(common + seq![a] + first, common),
    decreases common.len(),
{
    let left = common + seq![a] + first;
    let right = common + seq![b] + second;
    if common.len() == 0 {
        assert(left[0] == a && right[0] == b);
    } else {
        assert(left.skip(1) =~= common.skip(1) + seq![a] + first);
        assert(right.skip(1) =~= common.skip(1) + seq![b] + second);
        first_difference_decides(common.skip(1), a, b, first, second);
    }
}

} // verus!
