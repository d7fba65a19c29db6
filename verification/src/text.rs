//! Text primitives with contracts over sequences of characters.

use vstd::prelude::*;
use vstd::utf8::encode_utf8;

verus! {

/// `String::push` of the standard library: the character is added at the end.
pub assume_specification[ String::push ](s: &mut String, c: char)
    ensures
        final(s)@ == old(s)@.push(c),
;

/// The texts of a sequence of strings.
pub open spec fn texts(strings: Seq<String>) -> Seq<Seq<char>> {
    Seq::new(strings.len(), |i: int| strings[i]@)
}

/// The text of an optional string.
pub open spec fn opt_text(s: Option<String>) -> Option<Seq<char>> {
    match s {
        Some(s) => Some(s@),
        None => None,
    }
}

/// The text of an optional string slice.
pub open spec fn opt_str(s: Option<&str>) -> Option<Seq<char>> {
    match s {
        Some(s) => Some(s@),
        None => None,
    }
}

/// What is left of `s` when it starts with `prefix`.
pub open spec fn without_prefix(s: Seq<char>, prefix: Seq<char>) -> Option<Seq<char>> {
    if prefix.is_prefix_of(s) {
        Some(s.skip(prefix.len() as int))
    } else {
        None
    }
}

/// What is left of `s` when it ends with `suffix`.
pub open spec fn without_suffix(s: Seq<char>, suffix: Seq<char>) -> Option<Seq<char>> {
    if suffix.is_suffix_of(s) {
        Some(s.take(s.len() - suffix.len()))
    } else {
        None
    }
}

/// The part of `s` before the first `c`, or all of `s` when `c` does not occur.
pub open spec fn before_first(s: Seq<char>, c: char) -> Seq<char>
    decreases s.len(),
{
    if s.len() == 0 || s[0] == c {
        Seq::empty()
    } else {
        seq![s[0]] + before_first(s.skip(1), c)
    }
}

/// Whether `pattern` stands in `s` at index `at`.
pub open spec fn occurs_at(s: Seq<char>, pattern: Seq<char>, at: int) -> bool {
    &&& 0 <= at
    &&& at + pattern.len() <= s.len()
    &&& s.subrange(at, at + pattern.len()) == pattern
}

/// The largest index below `end` at which `pattern` stands in `s`.
pub open spec fn last_occurrence(s: Seq<char>, pattern: Seq<char>, end: nat) -> Option<nat>
    decreases end,
{
    if end == 0 {
        None
    } else if occurs_at(s, pattern, end - 1) {
        Some((end - 1) as nat)
    } else {
        last_occurrence(s, pattern, (end - 1) as nat)
    }
}

/// The two sides of the last place where `pattern` stands in `s`.
pub open spec fn split_at_last(s: Seq<char>, pattern: Seq<char>) -> Option<(Seq<char>, Seq<char>)> {
    match last_occurrence(s, pattern, s.len() + 1) {
        Some(at) => Some((s.take(at as int), s.skip((at + pattern.len()) as int))),
        None => None,
    }
}

/// `parts` one after another with `separator` between neighbours.
pub open spec fn joined(parts: Seq<Seq<char>>, separator: Seq<char>) -> Seq<char>
    decreases parts.len(),
{
    if parts.len() == 0 {
        Seq::empty()
    } else if parts.len() == 1 {
        parts[0]
    } else {
        joined(parts.drop_last(), separator) + separator + parts.last()
    }
}

/// Whether two string slices hold the same text.
pub fn same(a: &str, b: &str) -> (r: bool)
    ensures
        r == (a@ == b@),
{
    let x = a.as_bytes();
    let y = b.as_bytes();
    proof {
        vstd::utf8::encode_utf8_decode_utf8(a@);
        vstd::utf8::encode_utf8_decode_utf8(b@);
    }
    if x.len() != y.len() {
        return false;
    }
    let mut i: usize = 0;
    while i < x.len()
        invariant
            x@ == encode_utf8(a@),
            y@ == encode_utf8(b@),
            x@.len() == y@.len(),
            i <= x@.len(),
            x@.take(i as int) == y@.take(i as int),
        decreases x@.len() - i,
    {
        if x[i] != y[i] {
            assert(x@[i as int] != y@[i as int]);
            return false;
        }
        assert(x@.take(i + 1) =~= x@.take(i as int).push(x@[i as int]));
        assert(y@.take(i + 1) =~= y@.take(i as int).push(y@[i as int]));
        i = i + 1;
    }
    assert(x@.take(i as int) =~= x@);
    assert(y@.take(i as int) =~= y@);
    true
}

/// The characters of a string slice.
pub fn chars_of(s: &str) -> (r: Vec<char>)
    ensures
        r@ == s@,
{
    let mut chars: Vec<char> = Vec::new();
    for c in it: s.chars()
        invariant
            chars@ == it.seq().take(it.index()),
            it.seq() == s@,
    {
        chars.push(c);
    }
    chars
}

/// Whether `s` starts with `prefix`.
pub fn starts_with(s: &str, prefix: &str) -> (r: bool)
    ensures
        r == prefix@.is_prefix_of(s@),
{
    let x = chars_of(s);
    let p = chars_of(prefix);
    if p.len() > x.len() {
        return false;
    }
    let mut i: usize = 0;
    while i < p.len()
        invariant
            x@ == s@,
            p@ == prefix@,
            i <= p@.len() <= x@.len(),
            forall|j: int| 0 <= j < i ==> x@[j] == p@[j],
        decreases p@.len() - i,
    {
        if x[i] != p[i] {
            assert(s@.subrange(0, prefix@.len() as int)[i as int] != prefix@[i as int]);
            return false;
        }
        i = i + 1;
    }
    assert(prefix@ =~= s@.subrange(0, prefix@.len() as int));
    true
}

/// Whether `s` ends with `suffix`.
pub fn ends_with(s: &str, suffix: &str) -> (r: bool)
    ensures
        r == suffix@.is_suffix_of(s@),
{
    let x = chars_of(s);
    let p = chars_of(suffix);
    if p.len() > x.len() {
        return false;
    }
    let total: usize = x.len();
    let start: usize = total - p.len();
    let mut i: usize = 0;
    while i < p.len()
        invariant
            x@ == s@,
            p@ == suffix@,
            i <= p@.len() <= x@.len(),
            total == x@.len(),
            start == total - p@.len(),
            forall|j: int| 0 <= j < i ==> x@[start + j] == p@[j],
        decreases p@.len() - i,
    {
        if x[start + i] != p[i] {
            assert(s@.subrange(start as int, s@.len() as int)[i as int] != suffix@[i as int]);
            return false;
        }
        i = i + 1;
    }
    assert(suffix@ =~= s@.subrange(start as int, s@.len() as int));
    true
}

/// What is left of `s` after `prefix`, if it starts with that.
pub fn strip_prefix<'a>(s: &'a str, prefix: &str) -> (r: Option<&'a str>)
    ensures
        opt_str(r) == without_prefix(s@, prefix@),
{
    if starts_with(s, prefix) {
        Some(s.substring_char(prefix.unicode_len(), s.unicode_len()))
    } else {
        None
    }
}

/// What is left of `s` before `suffix`, if it ends with that.
pub fn strip_suffix<'a>(s: &'a str, suffix: &str) -> (r: Option<&'a str>)
    ensures
        opt_str(r) == without_suffix(s@, suffix@),
{
    if ends_with(s, suffix) {
        Some(s.substring_char(0, s.unicode_len() - suffix.unicode_len()))
    } else {
        None
    }
}

/// The part of `s` before the first `c`, or all of `s`.
pub fn until<'a>(s: &'a str, c: char) -> (r: &'a str)
    ensures
        r@ == before_first(s@, c),
{
    let x = chars_of(s);
    let mut i: usize = 0;
    assert(s@.skip(0) =~= s@);
    assert(s@.take(0) =~= Seq::<char>::empty());
    while i < x.len() && x[i] != c
        invariant
            x@ == s@,
            i <= x@.len(),
            before_first(s@, c) =~= s@.take(i as int) + before_first(s@.skip(i as int), c),
        decreases x@.len() - i,
    {
        assert(s@.skip(i as int).skip(1) =~= s@.skip(i + 1));
        assert(s@.take(i + 1) =~= s@.take(i as int).push(s@[i as int]));
        i = i + 1;
    }
    s.substring_char(0, i)
}

/// Both sides of the last place where `pattern` stands in `s`.
pub fn rsplit_once<'a>(s: &'a str, pattern: &str) -> (r: Option<(&'a str, &'a str)>)
    ensures
        (match r {
            Some(pair) => Some((pair.0@, pair.1@)),
            None => None,
        }) == split_at_last(s@, pattern@),
{
    let x = chars_of(s);
    let p = chars_of(pattern);
    let n: usize = p.len();
    let total: usize = x.len();
    if n > total {
        proof {
            lemma_no_occurrence(s@, pattern@, s@.len() + 1);
        }
        return None;
    }
    let mut end: usize = total - n;
    proof {
        lemma_occurrence_bound(s@, pattern@, s@.len() + 1);
    }
    loop
        invariant
            x@ == s@,
            p@ == pattern@,
            n == p@.len(),
            total == x@.len(),
            end + n <= total,
            last_occurrence(s@, pattern@, s@.len() + 1) == last_occurrence(
                s@,
                pattern@,
                (end + 1) as nat,
            ),
        decreases end,
    {
        if matches_at(&x, &p, end) {
            return Some((s.substring_char(0, end), s.substring_char(end + n, total)));
        }
        if end == 0 {
            assert(last_occurrence(s@, pattern@, 0) is None);
            return None;
        }
        end = end - 1;
    }
}

fn matches_at(x: &Vec<char>, p: &Vec<char>, at: usize) -> (r: bool)
    requires
        at + p@.len() <= x@.len(),
    ensures
        r == occurs_at(x@, p@, at as int),
{
    let total: usize = x.len();
    let mut i: usize = 0;
    while i < p.len()
        invariant
            i <= p@.len(),
            total == x@.len(),
            at + p@.len() <= total,
            forall|j: int| 0 <= j < i ==> x@[at + j] == p@[j],
        decreases p@.len() - i,
    {
        if x[at + i] != p[i] {
            assert(x@.subrange(at as int, at + p@.len())[i as int] != p@[i as int]);
            return false;
        }
        i = i + 1;
    }
    assert(x@.subrange(at as int, at + p@.len()) =~= p@);
    true
}

proof fn lemma_no_occurrence(s: Seq<char>, pattern: Seq<char>, end: nat)
    requires
        pattern.len() > s.len(),
    ensures
        last_occurrence(s, pattern, end) is None,
    decreases end,
{
    if end > 0 {
        lemma_no_occurrence(s, pattern, (end - 1) as nat);
    }
}

proof fn lemma_occurrence_bound(s: Seq<char>, pattern: Seq<char>, end: nat)
    requires
        pattern.len() <= s.len(),
        end >= s.len() - pattern.len() + 1,
    ensures
        last_occurrence(s, pattern, end) == last_occurrence(
            s,
            pattern,
            (s.len() - pattern.len() + 1) as nat,
        ),
    decreases end,
{
    if end > s.len() - pattern.len() + 1 {
        lemma_occurrence_bound(s, pattern, (end - 1) as nat);
    }
}

/// `parts` joined by `separator`.
pub fn join(parts: &[String], separator: &str) -> (r: String)
    ensures
        r@ == joined(texts(parts@), separator@),
{
    let mut result = String::new();
    let mut i: usize = 0;
    assert(texts(parts@).take(0) =~= Seq::<Seq<char>>::empty());
    while i < parts.len()
        invariant
            i <= parts@.len(),
            result@ == joined(texts(parts@).take(i as int), separator@),
        decreases parts@.len() - i,
    {
        assert(texts(parts@).take(i + 1).drop_last() =~= texts(parts@).take(i as int));
        assert(texts(parts@).take(i + 1).last() == parts@[i as int]@);
        if i > 0 {
            result.append(separator);
            result.append(parts[i].as_str());
        } else {
            result.append(parts[i].as_str());
            assert(result@ =~= parts@[0]@);
        }
        i = i + 1;
    }
    assert(texts(parts@).take(i as int) =~= texts(parts@));
    result
}

/// Whether `c` has the Unicode property `White_Space`.
pub open spec fn is_white_space(c: char) -> bool {
    ||| '\u{9}' <= c <= '\u{d}'
    ||| c == ' '
    ||| c == '\u{85}'
    ||| c == '\u{a0}'
    ||| c == '\u{1680}'
    ||| '\u{2000}' <= c <= '\u{200a}'
    ||| c == '\u{2028}'
    ||| c == '\u{2029}'
    ||| c == '\u{202f}'
    ||| c == '\u{205f}'
    ||| c == '\u{3000}'
}

/// Whether `s` holds nothing but white space.
pub open spec fn is_blank(s: Seq<char>) -> bool {
    forall|i: int| 0 <= i < s.len() ==> is_white_space(#[trigger] s[i])
}

/// Whether `s` holds nothing but white space.
pub fn blank(s: &str) -> (r: bool)
    ensures
        r == is_blank(s@),
{
    let x = chars_of(s);
    let mut i: usize = 0;
    while i < x.len()
        invariant
            x@ == s@,
            i <= x@.len(),
            forall|j: int| 0 <= j < i ==> is_white_space(#[trigger] s@[j]),
        decreases x@.len() - i,
    {
        let c = x[i];
        let white = ('\u{9}' <= c && c <= '\u{d}') || c == ' ' || c == '\u{85}' || c == '\u{a0}'
            || c == '\u{1680}' || ('\u{2000}' <= c && c <= '\u{200a}') || c == '\u{2028}' || c
            == '\u{2029}' || c == '\u{202f}' || c == '\u{205f}' || c == '\u{3000}';
        if !white {
            assert(!is_white_space(s@[i as int]));
            return false;
        }
        i = i + 1;
    }
    true
}

/// A line without the carriage return that may close it.
pub open spec fn without_return(line: Seq<char>) -> Seq<char> {
    if line.len() > 0 && line.last() == '\r' {
        line.drop_last()
    } else {
        line
    }
}

/// The lines of a text. A line ends with a line feed, which a carriage return
/// may precede; the last line may go without.
pub open spec fn lines(s: Seq<char>) -> Seq<Seq<char>>
    decreases s.len(),
{
    let head = before_first(s, '\n');
    if s.len() == 0 {
        Seq::empty()
    } else if head.len() >= s.len() {
        seq![s]
    } else {
        seq![without_return(head)] + lines(s.skip((head.len() + 1) as int))
    }
}

/// The part of `s` before `c` is what stands in front of the first `c`.
pub(crate) proof fn lemma_before_first(s: Seq<char>, c: char, n: int)
    requires
        0 <= n <= s.len(),
        forall|i: int| 0 <= i < n ==> s[i] != c,
        n < s.len() ==> s[n] == c,
    ensures
        before_first(s, c) == s.take(n),
    decreases s.len(),
{
    if n == 0 {
        assert(s.take(0) =~= Seq::<char>::empty());
    } else {
        lemma_before_first(s.skip(1), c, n - 1);
        assert(s.take(n) =~= seq![s[0]] + s.skip(1).take(n - 1));
    }
}

/// The lines of a text.
pub fn lines_of(s: &str) -> (r: Vec<String>)
    ensures
        texts(r@) == lines(s@),
{
    let x = chars_of(s);
    let mut result: Vec<String> = Vec::new();
    let mut start: usize = 0;
    assert(s@.skip(0) =~= s@);
    assert(texts(result@) =~= Seq::<Seq<char>>::empty());
    while start < x.len()
        invariant
            x@ == s@,
            start <= x@.len(),
            lines(s@) =~= texts(result@) + lines(s@.skip(start as int)),
        decreases x@.len() - start,
    {
        let mut line = String::new();
        let mut i: usize = start;
        let ghost rest = s@.skip(start as int);
        assert(line@ =~= s@.subrange(start as int, start as int));
        while i < x.len() && x[i] != '\n'
            invariant
                x@ == s@,
                start <= i <= x@.len(),
                line@ == s@.subrange(start as int, i as int),
                forall|j: int| start <= j < i ==> s@[j] != '\n',
            decreases x@.len() - i,
        {
            line.push(x[i]);
            assert(s@.subrange(start as int, i + 1) =~= s@.subrange(start as int, i as int).push(
                s@[i as int],
            ));
            i = i + 1;
        }
        proof {
            assert forall|j: int| 0 <= j < i - start implies rest[j] != '\n' by {
                assert(rest[j] == s@[start + j]);
            }
            lemma_before_first(rest, '\n', i - start);
            assert(rest.take(i - start) =~= s@.subrange(start as int, i as int));
        }
        let ghost before = result@;
        if i < x.len() {
            if i > start && x[i - 1] == '\r' {
                let mut shorter = String::new();
                let mut j: usize = start;
                assert(shorter@ =~= s@.subrange(start as int, start as int));
                while j < i - 1
                    invariant
                        x@ == s@,
                        start <= j <= i - 1,
                        i < x@.len(),
                        shorter@ == s@.subrange(start as int, j as int),
                    decreases i - j,
                {
                    shorter.push(x[j]);
                    assert(s@.subrange(start as int, j + 1) =~= s@.subrange(
                        start as int,
                        j as int,
                    ).push(s@[j as int]));
                    j = j + 1;
                }
                assert(s@.subrange(start as int, i as int).drop_last() =~= shorter@);
                line = shorter;
            }
            assert(line@ == without_return(before_first(rest, '\n')));
            result.push(line);
            assert(rest.skip(i - start + 1) =~= s@.skip(i + 1));
            assert(texts(result@) =~= texts(before).push(line@));
            start = i + 1;
        } else {
            result.push(line);
            assert(rest.take(i - start) =~= rest);
            assert(texts(result@) =~= texts(before).push(line@));
            assert(s@.skip(i as int) =~= Seq::<char>::empty());
            start = i;
        }
    }
    assert(s@.skip(start as int) =~= Seq::<char>::empty());
    assert(lines(s@.skip(start as int)) =~= Seq::<Seq<char>>::empty());
    result
}

/// The digit that stands for `d` in base ten.
pub open spec fn decimal_digit(d: nat) -> char {
    (48 + d) as char
}

/// `n` written in base ten, without leading zeros.
pub open spec fn decimal(n: nat) -> Seq<char>
    decreases n,
{
    if n < 10 {
        seq![decimal_digit(n)]
    } else {
        decimal(n / 10).push(decimal_digit(n % 10))
    }
}

/// Writes `n` in base ten at the end of `out`.
pub fn append_decimal(out: &mut String, n: u64)
    ensures
        final(out)@ == old(out)@ + decimal(n as nat),
    decreases n,
{
    if n >= 10 {
        append_decimal(out, n / 10);
    }
    let digit = (48 + (n % 10) as u8) as char;
    let ghost before = out@;
    out.push(digit);
    assert(out@ =~= before + seq![digit]);
    assert(out@ =~= old(out)@ + decimal(n as nat));
}

/// `n` written in base ten.
pub fn decimal_text(n: u64) -> (r: String)
    ensures
        r@ == decimal(n as nat),
{
    let mut out = String::new();
    append_decimal(&mut out, n);
    assert(out@ =~= decimal(n as nat));
    out
}

/// The lower case digit that stands for `d` in base sixteen.
pub open spec fn hex_digit(d: nat) -> char {
    if d < 10 {
        (48 + d) as char
    } else {
        (87 + d) as char
    }
}

/// The last `digits` digits of `n` in base sixteen, zeros included.
pub open spec fn hex(n: nat, digits: nat) -> Seq<char>
    decreases digits,
{
    if digits == 0 {
        Seq::empty()
    } else {
        hex(n / 16, (digits - 1) as nat).push(hex_digit(n % 16))
    }
}

/// Writes the last `digits` digits of `n` in base sixteen at the end of `out`.
pub fn append_hex(out: &mut String, n: u64, digits: u32)
    ensures
        final(out)@ == old(out)@ + hex(n as nat, digits as nat),
    decreases digits,
{
    if digits > 0 {
        append_hex(out, n / 16, digits - 1);
        let d: u8 = (n % 16) as u8;
        let digit = if d < 10 {
            (48 + d) as char
        } else {
            (87 + d) as char
        };
        out.push(digit);
    }
    assert(out@ =~= old(out)@ + hex(n as nat, digits as nat));
}

/// The lower case letter for an ASCII capital; any other character unchanged.
pub open spec fn lower_ascii(c: char) -> char {
    if 'A' <= c <= 'Z' {
        (c as u32 + 32) as char
    } else {
        c
    }
}

/// The lower case letter for an ASCII capital; any other character unchanged.
pub fn to_lower_ascii(c: char) -> (r: char)
    ensures
        r == lower_ascii(c),
{
    if 'A' <= c && c <= 'Z' {
        (c as u8 + 32) as char
    } else {
        c
    }
}

/// `n` spaces.
pub open spec fn spaces(n: nat) -> Seq<char> {
    Seq::new(n, |i: int| ' ')
}

/// `s` filled up with spaces on the right to `width` characters.
pub open spec fn padded(s: Seq<char>, width: nat) -> Seq<char> {
    if s.len() >= width {
        s
    } else {
        s + spaces((width - s.len()) as nat)
    }
}

/// Writes `s`, filled up with spaces to `width` characters, at the end of `out`.
pub fn append_padded(out: &mut String, s: &str, width: usize)
    ensures
        final(out)@ == old(out)@ + padded(s@, width as nat),
{
    out.append(s);
    let mut written: usize = s.unicode_len();
    let ghost start = out@;
    assert(out@ =~= start + spaces(0));
    while written < width
        invariant
            s@.len() <= written,
            s@.len() < written ==> written <= width,
            out@ == start + spaces((written - s@.len()) as nat),
        decreases width - written,
    {
        out.push(' ');
        assert(out@ =~= start + spaces((written + 1 - s@.len()) as nat));
        written = written + 1;
    }
    assert(out@ =~= old(out)@ + padded(s@, width as nat));
}

/// The number of bytes that `s` takes in UTF-8.
pub open spec fn byte_len(s: Seq<char>) -> nat {
    encode_utf8(s).len()
}

/// The number of bytes that `s` takes in UTF-8.
pub fn byte_length(s: &str) -> (r: usize)
    ensures
        r == byte_len(s@),
{
    s.as_bytes().len()
}

/// The string with the texts `a` and `b` one after the other.
pub fn concat2(a: &str, b: &str) -> (r: String)
    ensures
        r@ == a@ + b@,
{
    let mut out = a.to_string();
    out.append(b);
    out
}

/// The string with three texts one after the other.
pub fn concat3(a: &str, b: &str, c: &str) -> (r: String)
    ensures
        r@ == a@ + b@ + c@,
{
    let mut out = a.to_string();
    out.append(b);
    out.append(c);
    out
}

/// A copy of a slice of strings.
pub fn copy_strings(strings: &[String]) -> (r: Vec<String>)
    ensures
        texts(r@) == texts(strings@),
{
    let mut result: Vec<String> = Vec::new();
    let mut i: usize = 0;
    while i < strings.len()
        invariant
            i <= strings@.len(),
            texts(result@) == texts(strings@).take(i as int),
        decreases strings@.len() - i,
    {
        let ghost before = result@;
        result.push(strings[i].clone());
        assert(texts(result@) =~= texts(before).push(strings@[i as int]@));
        assert(texts(strings@).take(i + 1) =~= texts(strings@).take(i as int).push(
            strings@[i as int]@,
        ));
        i = i + 1;
    }
    assert(texts(strings@).take(i as int) =~= texts(strings@));
    result
}

} // verus!
