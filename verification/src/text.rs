//! Text functions over the characters of a string.

use vstd::prelude::*;
use vstd::utf8::{decode_utf8, valid_utf8};

verus! {

/// `String::push` appends one character to the end of the string.
pub assume_specification[ String::push ](s: &mut String, c: char)
    ensures
        final(s)@ == old(s)@.push(c),
;

/// `String::from_utf8` turns bytes into a string where they are UTF-8, and fails
/// where they are not. The error is dropped.
#[verifier::external_body]
pub(crate) fn from_utf8(bytes: Vec<u8>) -> (text: Option<String>)
    ensures
        match text {
            Some(text) => valid_utf8(bytes@) && text@ == decode_utf8(bytes@),
            None => !valid_utf8(bytes@),
        },
{
    String::from_utf8(bytes).ok()
}

/// The text that `String::from_utf8_lossy` makes of bytes.
pub uninterp spec fn lossy_text(bytes: Seq<u8>) -> Seq<char>;

/// `String::from_utf8_lossy` reads bytes as UTF-8, with a replacement character
/// for what is not. The text depends on the bytes alone and is named
/// [`lossy_text`]; bytes that are UTF-8 are read as what they encode.
#[verifier::external_body]
pub(crate) fn from_utf8_lossy(bytes: &Vec<u8>) -> (text: String)
    ensures
        text@ == lossy_text(bytes@),
        valid_utf8(bytes@) ==> text@ == decode_utf8(bytes@),
{
    String::from_utf8_lossy(bytes).into_owned()
}

/// Bytes as a text with one character per byte. Bytes that mean something to a
/// path, such as the separator, are the characters of the same number.
pub open spec fn byte_text(bytes: Seq<u8>) -> Seq<char> {
    Seq::new(bytes.len(), |i: int| bytes[i] as char)
}

/// Bytes as a text with one character per byte.
pub fn text_of_bytes(bytes: &[u8]) -> (text: String)
    ensures
        text@ == byte_text(bytes@),
{
    let mut text = String::new();
    let mut i: usize = 0;
    while i < bytes.len()
        invariant
            i <= bytes@.len(),
            text@ == byte_text(bytes@.take(i as int)),
        decreases bytes.len() - i,
    {
        text.push(bytes[i] as char);
        i += 1;
        assert(text@ =~= byte_text(bytes@.take(i as int)));
    }
    assert(bytes@.take(i as int) =~= bytes@);
    text
}

/// Whether every character of a text stands for a byte.
pub open spec fn of_bytes(text: Seq<char>) -> bool {
    forall|i: int| 0 <= i < text.len() ==> {
        let code = (#[trigger] text[i]) as int;
        0 <= code < 256
    }
}

/// The bytes of a text with one character per byte.
pub fn bytes_of_text(text: &str) -> (bytes: Vec<u8>)
    requires
        of_bytes(text@),
    ensures
        byte_text(bytes@) == text@,
{
    let chars = chars_of(text);
    let mut bytes: Vec<u8> = Vec::new();
    let mut i: usize = 0;
    while i < chars.len()
        invariant
            i <= chars@.len(),
            chars@ == text@,
            of_bytes(text@),
            bytes@.len() == i,
            forall|j: int| 0 <= j < i ==> (#[trigger] bytes@[j]) as char == text@[j],
        decreases chars.len() - i,
    {
        let byte: u8 = chars[i] as u8;
        assert(byte as char == text@[i as int]);
        bytes.push(byte);
        i += 1;
    }
    assert(byte_text(bytes@) =~= text@);
    bytes
}

/// The contents of each string of a list.
pub open spec fn texts(list: Seq<String>) -> Seq<Seq<char>> {
    Seq::new(list.len(), |i: int| list[i]@)
}

/// The same strings.
pub fn copy_texts(list: &Vec<String>) -> (copies: Vec<String>)
    ensures
        texts(copies@) == texts(list@),
{
    let mut copies: Vec<String> = Vec::new();
    let mut i: usize = 0;
    while i < list.len()
        invariant
            i <= list@.len(),
            copies@.len() == i,
            forall|j: int| 0 <= j < i ==> #[trigger] copies@[j]@ == list@[j]@,
        decreases list.len() - i,
    {
        copies.push(list[i].clone());
        i += 1;
    }
    assert(texts(copies@) =~= texts(list@));
    copies
}

/// The characters of `s` as a vector.
pub fn chars_of(s: &str) -> (chars: Vec<char>)
    ensures
        chars@ == s@,
{
    let mut chars: Vec<char> = Vec::new();
    for c in iter: s.chars()
        invariant
            iter.seq() == s@,
            chars@ == iter.seq().take(iter.index() as int),
    {
        chars.push(c);
    }
    assert(s@.take(s@.len() as int) =~= s@);
    chars
}

/// The string made of the characters `from..to`.
pub fn string_of(chars: &[char], from: usize, to: usize) -> (s: String)
    requires
        from <= to <= chars@.len(),
    ensures
        s@ == chars@.subrange(from as int, to as int),
{
    let mut s = String::new();
    let mut i: usize = from;
    while i < to
        invariant
            from <= i <= to <= chars@.len(),
            s@ == chars@.subrange(from as int, i as int),
        decreases to - i,
    {
        s.push(chars[i]);
        i += 1;
        assert(chars@.subrange(from as int, i as int) =~= chars@.subrange(
            from as int,
            i - 1,
        ).push(chars@[i - 1]));
    }
    s
}

/// The first `n` characters of `s`, or all of it.
pub open spec fn clipped(s: Seq<char>, n: nat) -> Seq<char> {
    if s.len() > n {
        s.take(n as int)
    } else {
        s
    }
}

/// The first `n` characters of `s`, or all of it, and whether any were left out.
pub fn clip(s: &str, n: usize) -> (clip: (String, bool))
    ensures
        clip.0@ == clipped(s@, n as nat),
        clip.1 == (s@.len() > n),
{
    let chars = chars_of(s);
    if chars.len() > n {
        assert(chars@.subrange(0, n as int) =~= s@.take(n as int));
        (string_of(&chars, 0, n), true)
    } else {
        (s.to_owned(), false)
    }
}

/// The pieces of `s` between the occurrences of `sep`: a separator opens a new
/// piece, every other character extends the last one.
pub open spec fn split_on(s: Seq<char>, sep: char) -> Seq<Seq<char>>
    decreases s.len(),
{
    if s.len() == 0 {
        seq![Seq::<char>::empty()]
    } else {
        let before = split_on(s.drop_last(), sep);
        if s.last() == sep {
            before.push(Seq::empty())
        } else {
            before.drop_last().push(before.last().push(s.last()))
        }
    }
}

pub proof fn lemma_split_nonempty(s: Seq<char>, sep: char)
    ensures
        split_on(s, sep).len() > 0,
    decreases s.len(),
{
    if s.len() > 0 {
        lemma_split_nonempty(s.drop_last(), sep);
    }
}

/// A text without the separator is one piece.
pub proof fn lemma_unsplit(s: Seq<char>, sep: char)
    requires
        !s.contains(sep),
    ensures
        split_on(s, sep) == seq![s],
    decreases s.len(),
{
    if s.len() > 0 {
        let rest = s.drop_last();
        if rest.contains(sep) {
            let k = choose|k: int| 0 <= k < rest.len() && rest[k] == sep;
            assert(s[k] == sep);
        }
        lemma_unsplit(rest, sep);
        assert(s[s.len() - 1] == s.last());
        assert(rest.push(s.last()) =~= s);
        assert(seq![rest].drop_last().push(s) =~= seq![s]);
    } else {
        assert(s =~= Seq::empty());
    }
}

/// Splits `s` at every `sep`, keeping empty pieces.
pub fn split(s: &str, sep: char) -> (pieces: Vec<String>)
    ensures
        texts(pieces@) == split_on(s@, sep),
{
    let mut pieces: Vec<String> = Vec::new();
    let mut last = String::new();
    for c in iter: s.chars()
        invariant
            iter.seq() == s@,
            texts(pieces@).push(last@) == split_on(iter.seq().take(iter.index() as int), sep),
    {
        let ghost seen = s@.take(iter.index() as int);
        let ghost more = s@.take(iter.index() + 1);
        let ghost before = texts(pieces@);
        proof {
            assert(more.drop_last() =~= seen);
            assert(before.push(last@).drop_last() =~= before);
        }
        if c == sep {
            pieces.push(last);
            last = String::new();
            proof {
                assert(texts(pieces@) =~= split_on(seen, sep));
            }
        } else {
            last.push(c);
        }
    }
    assert(s@.take(s@.len() as int) =~= s@);
    let ghost before = texts(pieces@);
    pieces.push(last);
    assert(texts(pieces@) =~= before.push(last@));
    pieces
}

/// `line` without one carriage return at its end.
pub open spec fn strip_return(line: Seq<char>) -> Seq<char> {
    if line.len() > 0 && line.last() == '\r' {
        line.drop_last()
    } else {
        line
    }
}

/// The lines of `s`: each ends at a line feed, which is dropped together with a
/// carriage return before it; what follows the last line feed is a line of its
/// own unless it is empty.
pub open spec fn lines_of(s: Seq<char>) -> Seq<Seq<char>> {
    let pieces = split_on(s, '\n');
    let ended = Seq::new((pieces.len() - 1) as nat, |i: int| strip_return(pieces[i]));
    if pieces.last().len() == 0 {
        ended
    } else {
        ended.push(pieces.last())
    }
}

/// The string without one carriage return at its end.
fn without_return(line: &str) -> (rest: String)
    ensures
        rest@ == strip_return(line@),
{
    let chars = chars_of(line);
    let n: usize = chars.len();
    if n > 0 && chars[n - 1] == '\r' {
        assert(chars@.subrange(0, n - 1) =~= line@.drop_last());
        string_of(&chars, 0, n - 1)
    } else {
        line.to_owned()
    }
}

/// The lines of `s`.
pub fn lines(s: &str) -> (lines: Vec<String>)
    ensures
        texts(lines@) == lines_of(s@),
{
    let pieces = split(s, '\n');
    proof {
        lemma_split_nonempty(s@, '\n');
        assert(texts(pieces@).len() == pieces@.len());
    }
    let last: usize = pieces.len() - 1;
    let mut lines: Vec<String> = Vec::new();
    let mut i: usize = 0;
    while i < last
        invariant
            i <= last,
            last == pieces@.len() - 1,
            lines@.len() == i,
            forall|j: int| 0 <= j < i ==> #[trigger] lines@[j]@ == strip_return(pieces@[j]@),
        decreases last - i,
    {
        lines.push(without_return(pieces[i].as_str()));
        i += 1;
    }
    let ghost ended = texts(lines@);
    proof {
        let all = split_on(s@, '\n');
        assert(all.last() == pieces@[last as int]@);
        assert(forall|j: int| 0 <= j < all.len() ==> #[trigger] all[j] == pieces@[j]@);
        assert(ended =~= Seq::new((all.len() - 1) as nat, |i: int| strip_return(all[i])));
    }
    if !pieces[last].as_str().is_empty() {
        lines.push(pieces[last].clone());
        assert(texts(lines@) =~= ended.push(pieces@[last as int]@));
    }
    lines
}

/// The characters with Unicode's White_Space property.
pub open spec fn white_space(c: char) -> bool {
    ||| '\u{9}' <= c <= '\u{d}'
    ||| c == ' '
    ||| c == '\u{85}'
    ||| c == '\u{a0}'
    ||| c == '\u{1680}'
    ||| '\u{2000}' <= c <= '\u{200a}'
    ||| c == '\u{2028}'
    ||| c == '\u{2029}'
    ||| c == '\u{202f}'
    ||| c == '\u{205f}'
    ||| c == '\u{3000}'
}

/// Whether `c` has Unicode's White_Space property.
pub fn is_white_space(c: char) -> (yes: bool)
    ensures
        yes == white_space(c),
{
    ('\u{9}' <= c && c <= '\u{d}') || c == ' ' || c == '\u{85}' || c == '\u{a0}' || c == '\u{1680}'
        || ('\u{2000}' <= c && c <= '\u{200a}') || c == '\u{2028}' || c == '\u{2029}' || c
        == '\u{202f}' || c == '\u{205f}' || c == '\u{3000}'
}

/// `s` without the white space at its start.
pub open spec fn trim_start_of(s: Seq<char>) -> Seq<char>
    decreases s.len(),
{
    if s.len() > 0 && white_space(s[0]) {
        trim_start_of(s.skip(1))
    } else {
        s
    }
}

/// `s` without the white space at its end.
pub open spec fn trim_end_of(s: Seq<char>) -> Seq<char>
    decreases s.len(),
{
    if s.len() > 0 && white_space(s.last()) {
        trim_end_of(s.drop_last())
    } else {
        s
    }
}

/// `s` without the white space around it.
pub open spec fn trim_of(s: Seq<char>) -> Seq<char> {
    trim_end_of(trim_start_of(s))
}

/// The string without the white space around it.
pub fn trim(s: &str) -> (trimmed: String)
    ensures
        trimmed@ == trim_of(s@),
{
    let chars = chars_of(s);
    let n: usize = chars.len();
    let mut from: usize = 0;
    assert(s@.skip(0) =~= s@);
    while from < n && is_white_space(chars[from])
        invariant
            chars@ == s@,
            n == s@.len(),
            from <= n,
            trim_start_of(s@) == trim_start_of(s@.skip(from as int)),
        decreases n - from,
    {
        assert(s@.skip(from as int).skip(1) =~= s@.skip(from + 1));
        from += 1;
    }
    let ghost rest = s@.skip(from as int);
    assert(trim_start_of(s@) == rest);
    let mut to: usize = n;
    assert(s@.subrange(from as int, n as int) =~= rest);
    while from < to && is_white_space(chars[to - 1])
        invariant
            chars@ == s@,
            n == s@.len(),
            from <= to <= n,
            trim_end_of(rest) == trim_end_of(s@.subrange(from as int, to as int)),
        decreases to,
    {
        assert(s@.subrange(from as int, to as int).drop_last() =~= s@.subrange(
            from as int,
            to - 1,
        ));
        to -= 1;
    }
    string_of(&chars, from, to)
}

/// Whether `needle` occurs in `s` at position `i`.
pub open spec fn occurs_at(s: Seq<char>, needle: Seq<char>, i: int) -> bool {
    0 <= i <= s.len() - needle.len() && s.subrange(i, i + needle.len()) == needle
}

/// Whether `needle` occurs in `s`.
pub open spec fn contains_text(s: Seq<char>, needle: Seq<char>) -> bool {
    exists|i: int| #[trigger] occurs_at(s, needle, i)
}

/// Whether `needle` occurs in `s` at position `at`.
pub(crate) fn matches_at(s: &[char], needle: &[char], at: usize) -> (yes: bool)
    requires
        at <= s@.len(),
    ensures
        yes == occurs_at(s@, needle@, at as int),
{
    let n: usize = s.len();
    if needle.len() > n - at {
        return false;
    }
    let mut i: usize = 0;
    while i < needle.len()
        invariant
            i <= needle@.len(),
            at + needle@.len() <= n == s@.len(),
            s@.subrange(at as int, at + i) == needle@.take(i as int),
        decreases needle.len() - i,
    {
        if s[at + i] != needle[i] {
            proof {
                if occurs_at(s@, needle@, at as int) {
                    assert(s@.subrange(at as int, at + needle@.len())[i as int] == needle@[i as int]);
                }
            }
            return false;
        }
        i += 1;
        assert(s@.subrange(at as int, at + i) =~= needle@.take(i as int)) by {
            let before = s@.subrange(at as int, at + i - 1);
            assert(s@.subrange(at as int, at + i) =~= before.push(s@[at + i - 1]));
            assert(needle@.take(i as int) =~= needle@.take(i - 1).push(needle@[i - 1]));
        }
    }
    assert(needle@.take(i as int) =~= needle@);
    true
}

/// Whether `needle` occurs in `s`.
pub fn contains(s: &str, needle: &str) -> (yes: bool)
    ensures
        yes == contains_text(s@, needle@),
{
    let chars = chars_of(s);
    let wanted = chars_of(needle);
    let mut i: usize = 0;
    while i < chars.len()
        invariant
            chars@ == s@,
            wanted@ == needle@,
            i <= s@.len(),
            forall|j: int| 0 <= j < i ==> !#[trigger] occurs_at(s@, needle@, j),
        decreases chars.len() - i,
    {
        if matches_at(&chars, &wanted, i) {
            return true;
        }
        i += 1;
    }
    matches_at(&chars, &wanted, i)
}

/// Whether `c` occurs in `s`.
pub fn contains_char(s: &str, c: char) -> (yes: bool)
    ensures
        yes == s@.contains(c),
{
    for d in iter: s.chars()
        invariant
            iter.seq() == s@,
            forall|j: int| 0 <= j < iter.index() ==> s@[j] != c,
    {
        if d == c {
            return true;
        }
    }
    false
}

/// Whether `prefix` begins `s`.
pub fn starts_with(s: &str, prefix: &str) -> (yes: bool)
    ensures
        yes == prefix@.is_prefix_of(s@),
{
    let chars = chars_of(s);
    let wanted = chars_of(prefix);
    matches_at(&chars, &wanted, 0)
}

/// Whether two strings hold the same text.
pub fn same_text(a: &str, b: &str) -> (yes: bool)
    ensures
        yes == (a@ == b@),
{
    a.to_owned() == b.to_owned()
}

/// The parts with `sep` between each two.
pub open spec fn joined(parts: Seq<Seq<char>>, sep: Seq<char>) -> Seq<char>
    decreases parts.len(),
{
    if parts.len() == 0 {
        Seq::empty()
    } else if parts.len() == 1 {
        parts[0]
    } else {
        joined(parts.drop_last(), sep) + sep + parts.last()
    }
}

/// Puts `sep` between each two parts.
pub fn join(parts: &[String], sep: &str) -> (all: String)
    ensures
        all@ == joined(texts(parts@), sep@),
{
    let mut all = String::new();
    let mut i: usize = 0;
    while i < parts.len()
        invariant
            i <= parts@.len(),
            all@ == joined(texts(parts@).take(i as int), sep@),
        decreases parts.len() - i,
    {
        if i > 0 {
            all.append(sep);
        }
        all.append(parts[i].as_str());
        i += 1;
        proof {
            let now = texts(parts@).take(i as int);
            assert(now.drop_last() =~= texts(parts@).take(i - 1));
            assert(all@ =~= joined(now, sep@));
        }
    }
    assert(texts(parts@).take(i as int) =~= texts(parts@));
    all
}

/// The decimal digits.
pub open spec fn digit(d: nat) -> char {
    ('0' as u32 + d) as char
}

/// The number `n` in decimal.
pub open spec fn decimal(n: nat) -> Seq<char>
    decreases n,
{
    if n < 10 {
        seq![digit(n)]
    } else {
        decimal(n / 10).push(digit(n % 10))
    }
}

proof fn lemma_decimal_nonempty(n: nat)
    ensures
        decimal(n).len() > 0,
        n >= 10 ==> decimal(n).len() > 1,
    decreases n,
{
    if n >= 10 {
        lemma_decimal_nonempty(n / 10);
    }
}

/// Different numbers are written differently.
pub proof fn lemma_decimal_injective(m: nat, n: nat)
    ensures
        decimal(m) == decimal(n) ==> m == n,
    decreases m,
{
    if decimal(m) == decimal(n) {
        lemma_decimal_nonempty(m);
        lemma_decimal_nonempty(n);
        assert(decimal(m).last() == digit(m % 10));
        assert(decimal(n).last() == digit(n % 10));
        if m >= 10 {
            lemma_decimal_injective(m / 10, n / 10);
            assert(decimal(m).drop_last() =~= decimal(m / 10));
            assert(decimal(n).drop_last() =~= decimal(n / 10));
        }
    }
}

/// The digit for `d`.
fn digit_char(d: u32) -> (c: char)
    requires
        d < 10,
    ensures
        c == digit(d as nat),
{
    if d == 0 {
        '0'
    } else if d == 1 {
        '1'
    } else if d == 2 {
        '2'
    } else if d == 3 {
        '3'
    } else if d == 4 {
        '4'
    } else if d == 5 {
        '5'
    } else if d == 6 {
        '6'
    } else if d == 7 {
        '7'
    } else if d == 8 {
        '8'
    } else {
        '9'
    }
}

/// Writes `n` in decimal.
pub fn decimal_text(n: u128) -> (text: String)
    ensures
        text@ == decimal(n as nat),
    decreases n,
{
    let last: u32 = (n % 10) as u32;
    if n < 10 {
        let mut text = String::new();
        text.push(digit_char(last));
        assert(text@ =~= seq![digit(n as nat)]);
        text
    } else {
        let mut text = decimal_text(n / 10);
        text.push(digit_char(last));
        text
    }
}

/// `c` with the letters `A` to `Z` made small.
pub open spec fn ascii_lower(c: char) -> char {
    if 'A' <= c <= 'Z' {
        (c as u32 + 32) as char
    } else {
        c
    }
}

/// `s` with the letters `A` to `Z` made small.
pub open spec fn ascii_lower_text(s: Seq<char>) -> Seq<char> {
    Seq::new(s.len(), |i: int| ascii_lower(s[i]))
}

/// `c` with the letters `A` to `Z` made small.
pub fn to_ascii_lower(c: char) -> (lower: char)
    ensures
        lower == ascii_lower(c),
{
    if 'A' <= c && c <= 'Z' {
        ((c as u8) + 32) as char
    } else {
        c
    }
}

/// Whether two strings are the same but for the case of `A` to `Z`.
pub fn same_ignoring_ascii_case(a: &str, b: &str) -> (yes: bool)
    ensures
        yes == (ascii_lower_text(a@) == ascii_lower_text(b@)),
{
    lower_ascii(a) == lower_ascii(b)
}

/// The string with the letters `A` to `Z` made small.
pub fn lower_ascii(s: &str) -> (lower: String)
    ensures
        lower@ == ascii_lower_text(s@),
{
    let mut lower = String::new();
    for c in iter: s.chars()
        invariant
            iter.seq() == s@,
            lower@ == ascii_lower_text(s@.take(iter.index() as int)),
    {
        let ghost seen = s@.take(iter.index() as int);
        lower.push(to_ascii_lower(c));
        assert(lower@ =~= ascii_lower_text(s@.take(iter.index() + 1)));
    }
    assert(s@.take(s@.len() as int) =~= s@);
    lower
}

/// Whether `a` comes before `b` in the order of their characters.
pub open spec fn text_less(a: Seq<char>, b: Seq<char>) -> bool
    decreases b.len(),
{
    if b.len() == 0 {
        false
    } else if a.len() == 0 {
        true
    } else {
        a[0] < b[0] || (a[0] == b[0] && text_less(a.skip(1), b.skip(1)))
    }
}

pub proof fn lemma_text_less_irreflexive(a: Seq<char>)
    ensures
        !text_less(a, a),
    decreases a.len(),
{
    if a.len() > 0 {
        lemma_text_less_irreflexive(a.skip(1));
    }
}

pub proof fn lemma_text_less_transitive(a: Seq<char>, b: Seq<char>, c: Seq<char>)
    requires
        text_less(a, b),
        text_less(b, c),
    ensures
        text_less(a, c),
    decreases c.len(),
{
    if a.len() > 0 && a[0] == b[0] && b[0] == c[0] {
        lemma_text_less_transitive(a.skip(1), b.skip(1), c.skip(1));
    }
}

pub proof fn lemma_text_less_total(a: Seq<char>, b: Seq<char>)
    ensures
        text_less(a, b) || text_less(b, a) || a == b,
    decreases a.len(),
{
    if a.len() > 0 && b.len() > 0 && a[0] == b[0] {
        lemma_text_less_total(a.skip(1), b.skip(1));
        if a.skip(1) == b.skip(1) {
            assert(a =~= seq![a[0]] + a.skip(1));
            assert(b =~= seq![b[0]] + b.skip(1));
        }
    } else if a.len() == 0 && b.len() == 0 {
        assert(a =~= b);
    }
}

/// Whether `a` comes before `b` in the order of their characters.
pub fn comes_before(a: &str, b: &str) -> (yes: bool)
    ensures
        yes == text_less(a@, b@),
{
    let left = chars_of(a);
    let right = chars_of(b);
    let mut i: usize = 0;
    assert(a@.skip(0) =~= a@);
    assert(b@.skip(0) =~= b@);
    while i < left.len() && i < right.len()
        invariant
            left@ == a@,
            right@ == b@,
            i <= a@.len(),
            i <= b@.len(),
            text_less(a@, b@) == text_less(a@.skip(i as int), b@.skip(i as int)),
        decreases left.len() - i,
    {
        if left[i] != right[i] {
            return left[i] < right[i];
        }
        assert(a@.skip(i as int).skip(1) =~= a@.skip(i + 1));
        assert(b@.skip(i as int).skip(1) =~= b@.skip(i + 1));
        i += 1;
    }
    i < right.len()
}

/// Whether each text comes before the next: in order, and none twice.
pub open spec fn ascending(list: Seq<Seq<char>>) -> bool {
    forall|i: int, j: int| 0 <= i < j < list.len() ==> text_less(#[trigger] list[i], #[trigger] list[j])
}

/// The first position of an ascending list whose text does not come before
/// `text`.
pub fn position_in(list: &[String], text: &str) -> (at: usize)
    requires
        ascending(texts(list@)),
    ensures
        at <= list@.len(),
        forall|i: int| 0 <= i < at ==> text_less(#[trigger] texts(list@)[i], text@),
        forall|i: int| at <= i < list@.len() ==> !text_less(#[trigger] texts(list@)[i], text@),
{
    let mut at: usize = 0;
    while at < list.len() && comes_before(list[at].as_str(), text)
        invariant
            at <= list@.len(),
            forall|i: int| 0 <= i < at ==> text_less(#[trigger] texts(list@)[i], text@),
        decreases list.len() - at,
    {
        at += 1;
    }
    proof {
        if at < list@.len() {
            assert forall|i: int| at <= i < list@.len() implies !text_less(
                #[trigger] texts(list@)[i],
                text@,
            ) by {
                if at < i && text_less(texts(list@)[i], text@) {
                    assert(text_less(texts(list@)[at as int], texts(list@)[i]));
                    lemma_text_less_transitive(texts(list@)[at as int], texts(list@)[i], text@);
                }
            }
        }
    }
    at
}

/// Sorts a list and drops what occurs twice.
pub fn sorted_unique(list: &[String]) -> (sorted: Vec<String>)
    ensures
        ascending(texts(sorted@)),
        forall|text: Seq<char>| #[trigger]
            texts(sorted@).contains(text) <==> texts(list@).contains(text),
{
    let mut sorted: Vec<String> = Vec::new();
    let mut i: usize = 0;
    while i < list.len()
        invariant
            i <= list@.len(),
            ascending(texts(sorted@)),
            forall|text: Seq<char>| #[trigger]
                texts(sorted@).contains(text) <==> texts(list@).take(i as int).contains(text),
        decreases list.len() - i,
    {
        let text = &list[i];
        let at: usize = position_in(&sorted, text.as_str());
        let ghost before = texts(sorted@);
        let ghost seen = texts(list@).take(i as int);
        let ghost more = texts(list@).take(i + 1);
        proof {
            assert(more =~= seen.push(text@));
            assert forall|other: Seq<char>| #[trigger] more.contains(other) <==> (seen.contains(other)
                || other == text@) by {
                if more.contains(other) {
                    let k = choose|k: int| 0 <= k < more.len() && more[k] == other;
                    if k < seen.len() {
                        assert(seen[k] == other);
                    }
                }
                if seen.contains(other) {
                    let k = choose|k: int| 0 <= k < seen.len() && seen[k] == other;
                    assert(more[k] == other);
                }
                assert(more[seen.len() as int] == text@);
            }
        }
        if at < sorted.len() && sorted[at] == *text {
            assert(before[at as int] == text@);
        } else {
            sorted.insert(at, text.clone());
            proof {
                let after = texts(sorted@);
                assert(after =~= before.insert(at as int, text@));
                assert forall|a: int, b: int| 0 <= a < b < after.len() implies text_less(
                    #[trigger] after[a],
                    #[trigger] after[b],
                ) by {
                    if a == at {
                        assert(after[b] == before[b - 1]);
                        lemma_text_less_total(text@, before[b - 1]);
                        if before[b - 1] == text@ && b - 1 > at {
                            assert(text_less(before[at as int], before[b - 1]));
                        }
                    } else if b == at {
                        assert(after[a] == before[a]);
                    } else {
                        let x = if a < at { a } else { a - 1 };
                        let y = if b < at { b } else { b - 1 };
                        assert(text_less(before[x], before[y]));
                    }
                }
                assert forall|other: Seq<char>| #[trigger] after.contains(other) <==> (
                before.contains(other) || other == text@) by {
                    if after.contains(other) {
                        let k = choose|k: int| 0 <= k < after.len() && after[k] == other;
                        if k < at {
                            assert(before[k] == other);
                        } else if k > at {
                            assert(before[k - 1] == other);
                        }
                    }
                    if before.contains(other) {
                        let k = choose|k: int| 0 <= k < before.len() && before[k] == other;
                        if k < at {
                            assert(after[k] == other);
                        } else {
                            assert(after[k + 1] == other);
                        }
                    }
                    assert(after[at as int] == text@);
                }
            }
        }
        i += 1;
    }
    assert(texts(list@).take(i as int) =~= texts(list@));
    sorted
}

/// Splitting loses nothing and splits everywhere: the pieces with the separator
/// between them are the text again, and no piece holds the separator.
pub proof fn law_pieces_make_up_the_text(s: Seq<char>, sep: char)
    ensures
        split_on(s, sep).len() > 0,
        joined(split_on(s, sep), seq![sep]) == s,
        forall|i: int| 0 <= i < split_on(s, sep).len() ==> !(#[trigger] split_on(s, sep)[i]).contains(sep),
    decreases s.len(),
{
    let pieces = split_on(s, sep);
    lemma_split_nonempty(s, sep);
    if s.len() == 0 {
        assert(joined(pieces, seq![sep]) =~= s);
    } else {
        let rest = s.drop_last();
        let before = split_on(rest, sep);
        law_pieces_make_up_the_text(rest, sep);
        assert(rest.push(s.last()) =~= s);
        if s.last() == sep {
            assert(pieces.drop_last() =~= before);
            assert(rest + seq![sep] + Seq::<char>::empty() =~= s);
        } else {
            let grown = before.last().push(s.last());
            assert(pieces.drop_last() =~= before.drop_last());
            assert forall|i: int| 0 <= i < pieces.len() implies !(#[trigger] pieces[i]).contains(
                sep,
            ) by {
                if i < before.len() - 1 {
                    assert(pieces[i] == before[i]);
                } else {
                    assert(!before[i].contains(sep));
                    if grown.contains(sep) {
                        let k = choose|k: int| 0 <= k < grown.len() && grown[k] == sep;
                        assert(before.last()[k] == sep);
                    }
                }
            }
            if pieces.len() == 1 {
                assert(before[0] == before.last());
                assert(joined(pieces, seq![sep]) =~= s);
            } else {
                let start = joined(before.drop_last(), seq![sep]);
                assert(start + seq![sep] + grown =~= (start + seq![sep] + before.last()).push(
                    s.last(),
                ));
            }
        }
    }
}

/// Text without the separator lengthens the last piece.
proof fn lemma_split_extend(s: Seq<char>, more: Seq<char>, sep: char)
    requires
        !more.contains(sep),
    ensures
        split_on(s + more, sep) == split_on(s, sep).drop_last().push(
            split_on(s, sep).last() + more,
        ),
    decreases more.len(),
{
    lemma_split_nonempty(s, sep);
    let before = split_on(s, sep);
    if more.len() == 0 {
        assert(s + more =~= s);
        assert(before.last() + more =~= before.last());
        assert(before =~= before.drop_last().push(before.last()));
    } else {
        let fewer = more.drop_last();
        if fewer.contains(sep) {
            let k = choose|k: int| 0 <= k < fewer.len() && fewer[k] == sep;
            assert(more[k] == sep);
        }
        assert(more[more.len() - 1] == more.last());
        lemma_split_extend(s, fewer, sep);
        assert((s + more).drop_last() =~= s + fewer);
        let grown = before.drop_last().push(before.last() + fewer);
        assert(grown.drop_last() =~= before.drop_last());
        assert((before.last() + fewer).push(more.last()) =~= before.last() + more);
    }
}

/// Some lines as they are written: each followed by a line feed, or by a
/// carriage return and a line feed where `carriages` says so.
pub open spec fn written_lines(lines: Seq<Seq<char>>, carriages: Seq<bool>) -> Seq<char>
    decreases lines.len(),
{
    if lines.len() == 0 {
        Seq::empty()
    } else {
        let line = if carriages.last() {
            lines.last().push('\r')
        } else {
            lines.last()
        };
        written_lines(lines.drop_last(), carriages.drop_last()) + line.push('\n')
    }
}

/// Lines that are written are read: each line that ends in a line feed, with or
/// without a carriage return before it, comes back without its end, none is
/// lost or joined with another, and what follows the last line feed is a line
/// of its own where it is not empty. Every text is of this form.
pub proof fn law_written_lines_are_read(
    lines: Seq<Seq<char>>,
    carriages: Seq<bool>,
    rest: Seq<char>,
)
    requires
        carriages.len() == lines.len(),
        forall|i: int|
            0 <= i < lines.len() ==> !(#[trigger] lines[i]).contains('\n') && (carriages[i]
                || lines[i].len() == 0 || lines[i].last() != '\r'),
        !rest.contains('\n'),
    ensures
        lines_of(written_lines(lines, carriages) + rest) == if rest.len() == 0 {
            lines
        } else {
            lines.push(rest)
        },
{
    let text = written_lines(lines, carriages);
    lemma_written_pieces(lines, carriages);
    lemma_split_extend(text, rest, '\n');
    let before = split_on(text, '\n');
    let pieces = split_on(text + rest, '\n');
    assert(before.last() + rest =~= rest);
    let ended = Seq::new((pieces.len() - 1) as nat, |i: int| strip_return(pieces[i]));
    assert forall|i: int| 0 <= i < lines.len() implies strip_return(#[trigger] pieces[i]) == lines[i] by {
        assert(pieces[i] == before[i]);
        assert(lines[i].push('\r').drop_last() =~= lines[i]);
    }
    assert(ended =~= lines);
}

proof fn lemma_written_pieces(lines: Seq<Seq<char>>, carriages: Seq<bool>)
    requires
        carriages.len() == lines.len(),
        forall|i: int| 0 <= i < lines.len() ==> !(#[trigger] lines[i]).contains('\n'),
    ensures
        ({
            let pieces = split_on(written_lines(lines, carriages), '\n');
            &&& pieces.len() == lines.len() + 1
            &&& pieces.last().len() == 0
            &&& forall|i: int|
                0 <= i < lines.len() ==> #[trigger] pieces[i] == if carriages[i] {
                    lines[i].push('\r')
                } else {
                    lines[i]
                }
        }),
    decreases lines.len(),
{
    if lines.len() > 0 {
        let fewer = lines.drop_last();
        let marks = carriages.drop_last();
        assert forall|i: int| 0 <= i < fewer.len() implies !(#[trigger] fewer[i]).contains('\n') by {
            assert(fewer[i] == lines[i]);
        }
        lemma_written_pieces(fewer, marks);
        let text = written_lines(fewer, marks);
        let before = split_on(text, '\n');
        let line = if carriages.last() { lines.last().push('\r') } else { lines.last() };
        assert(!lines[lines.len() - 1].contains('\n'));
        if line.contains('\n') {
            let k = choose|k: int| 0 <= k < line.len() && line[k] == '\n';
            assert(lines.last()[k] == '\n');
        }
        lemma_split_extend(text, line, '\n');
        let whole = written_lines(lines, carriages);
        assert(whole =~= (text + line).push('\n'));
        assert(whole.drop_last() =~= text + line);
        assert(before.last() + line =~= line);
        let pieces = split_on(whole, '\n');
        assert(pieces == split_on(text + line, '\n').push(Seq::empty()));
        assert forall|i: int| 0 <= i < lines.len() implies #[trigger] pieces[i] == (if carriages[i] {
            lines[i].push('\r')
        } else {
            lines[i]
        }) by {
            if i < fewer.len() {
                assert(pieces[i] == before[i]);
                assert(fewer[i] == lines[i] && marks[i] == carriages[i]);
            }
        }
    }
}

/// Trimming takes white space off both ends and nothing else: what is left is
/// the part of the text between them, and it neither begins nor ends with white
/// space. The result tells where it begins.
pub proof fn law_trimming_takes_the_white_space_around(s: Seq<char>) -> (from: int)
    ensures
        0 <= from <= from + trim_of(s).len() <= s.len(),
        s.subrange(from, from + trim_of(s).len()) == trim_of(s),
        forall|i: int| 0 <= i < from ==> white_space(#[trigger] s[i]),
        forall|i: int| from + trim_of(s).len() <= i < s.len() ==> white_space(#[trigger] s[i]),
        trim_of(s).len() > 0 ==> !white_space(trim_of(s)[0]) && !white_space(trim_of(s).last()),
{
    let from = lemma_trim_start(s);
    let rest = trim_start_of(s);
    lemma_trim_end(rest);
    let kept = trim_of(s);
    assert(s.subrange(from, from + kept.len()) =~= kept);
    assert forall|i: int| from + kept.len() <= i < s.len() implies white_space(#[trigger] s[i]) by {
        assert(rest[i - from] == s[i]);
    }
    if kept.len() > 0 {
        assert(kept[0] == rest[0]);
    }
    from
}

proof fn lemma_trim_start(s: Seq<char>) -> (from: int)
    ensures
        0 <= from <= s.len(),
        trim_start_of(s) == s.skip(from),
        forall|i: int| 0 <= i < from ==> white_space(#[trigger] s[i]),
        from < s.len() ==> !white_space(s[from]),
    decreases s.len(),
{
    if s.len() > 0 && white_space(s[0]) {
        let rest = s.skip(1);
        let from = lemma_trim_start(rest);
        assert(rest.skip(from) =~= s.skip(from + 1));
        assert forall|i: int| 0 <= i < from + 1 implies white_space(#[trigger] s[i]) by {
            if i > 0 {
                assert(rest[i - 1] == s[i]);
            }
        }
        from + 1
    } else {
        assert(s.skip(0) =~= s);
        0
    }
}

proof fn lemma_trim_end(s: Seq<char>)
    ensures
        trim_end_of(s).len() <= s.len(),
        trim_end_of(s) == s.take(trim_end_of(s).len() as int),
        forall|i: int| trim_end_of(s).len() <= i < s.len() ==> white_space(#[trigger] s[i]),
        trim_end_of(s).len() > 0 ==> !white_space(trim_end_of(s).last()),
    decreases s.len(),
{
    if s.len() > 0 && white_space(s.last()) {
        let rest = s.drop_last();
        lemma_trim_end(rest);
        let kept = trim_end_of(rest);
        assert(rest.take(kept.len() as int) =~= s.take(kept.len() as int));
        assert forall|i: int| kept.len() <= i < s.len() implies white_space(#[trigger] s[i]) by {
            if i < rest.len() {
                assert(rest[i] == s[i]);
            }
        }
    } else {
        assert(s.take(s.len() as int) =~= s);
    }
}

/// Of the ASCII characters, the space, the tabs, the line feed, the form feed
/// and the carriage return are white space.
pub proof fn law_ascii_white_space(c: char)
    requires
        c < '\u{80}',
    ensures
        white_space(c) <==> c == ' ' || c == '\t' || c == '\n' || c == '\u{b}' || c == '\u{c}' || c
            == '\r',
{
}

/// A text occurs in another exactly where that one can be written as something,
/// the text, and something more.
pub proof fn law_occurrences_split_the_text(before: Seq<char>, needle: Seq<char>, after: Seq<char>)
    ensures
        contains_text(before + needle + after, needle),
        occurs_at(before + needle + after, needle, before.len() as int),
{
    let whole = before + needle + after;
    assert(whole.subrange(before.len() as int, (before.len() + needle.len()) as int) =~= needle);
    assert(occurs_at(whole, needle, before.len() as int));
}

/// Where a text occurs in another, that one is what comes before it, the text,
/// and what comes after it.
pub proof fn law_found_texts_are_there(s: Seq<char>, needle: Seq<char>, at: int)
    requires
        occurs_at(s, needle, at),
    ensures
        0 <= at <= s.len() - needle.len(),
        s == s.take(at) + needle + s.skip(at + needle.len()),
        contains_text(s, needle),
{
    assert(s =~= s.take(at) + s.subrange(at, at + needle.len()) + s.skip(at + needle.len()));
}

/// The number that a text of decimal digits stands for.
pub open spec fn read_decimal(text: Seq<char>) -> nat
    decreases text.len(),
{
    if text.len() == 0 {
        0
    } else {
        10 * read_decimal(text.drop_last()) + (text.last() as u32 - '0' as u32) as nat
    }
}

/// A number that is written in decimal is read as the same number: it is made
/// of digits alone, and only zero begins with `0`.
pub proof fn law_decimals_read_back(n: nat)
    ensures
        read_decimal(decimal(n)) == n,
        decimal(n).len() > 0,
        forall|i: int| 0 <= i < decimal(n).len() ==> '0' <= #[trigger] decimal(n)[i] <= '9',
        decimal(n)[0] == '0' <==> n == 0,
    decreases n,
{
    let text = decimal(n);
    if n < 10 {
        assert(digit(n) as u32 == '0' as u32 + n);
        assert(text.drop_last() =~= Seq::empty());
        reveal_with_fuel(read_decimal, 2);
    } else {
        law_decimals_read_back(n / 10);
        let before = decimal(n / 10);
        let last = digit(n % 10);
        assert(last as u32 == '0' as u32 + n % 10);
        assert(text.drop_last() =~= before);
        assert(text.last() == last);
        assert forall|i: int| 0 <= i < text.len() implies '0' <= #[trigger] text[i] <= '9' by {
            if i < before.len() {
                assert(text[i] == before[i]);
            }
        }
        assert(text[0] == before[0]);
    }
}

/// Only the letters `A` to `Z` change, each to the small letter at its place in
/// the alphabet.
pub proof fn law_small_letters(c: char)
    ensures
        'A' <= c <= 'Z' ==> ascii_lower(c) as int - 'a' as int == c as int - 'A' as int,
        !('A' <= c <= 'Z') ==> ascii_lower(c) == c,
        !('A' <= ascii_lower(c) <= 'Z'),
{
}

/// A text comes before another exactly where it is the beginning of it, or has
/// the smaller character at the first place where they differ.
pub proof fn law_order_is_decided_by_the_first_difference(a: Seq<char>, b: Seq<char>, k: int)
    requires
        0 <= k <= a.len(),
        k <= b.len(),
        a.take(k) == b.take(k),
        k == a.len() || k == b.len() || a[k] != b[k],
    ensures
        text_less(a, b) <==> if k < a.len() && k < b.len() {
            a[k] < b[k]
        } else {
            a.len() < b.len()
        },
    decreases k,
{
    if k > 0 {
        assert(a[0] == a.take(k)[0]);
        assert(b[0] == b.take(k)[0]);
        let x = a.skip(1);
        let y = b.skip(1);
        assert(x.take(k - 1) =~= a.take(k).skip(1));
        assert(y.take(k - 1) =~= b.take(k).skip(1));
        law_order_is_decided_by_the_first_difference(x, y, k - 1);
    }
}

/// Clipping keeps the beginning: as many characters as are allowed, or all.
pub proof fn law_clipping_keeps_the_beginning(s: Seq<char>, n: nat)
    ensures
        clipped(s, n).is_prefix_of(s),
        clipped(s, n).len() == if s.len() < n {
            s.len()
        } else {
            n
        },
{
    assert(s.take(clipped(s, n).len() as int) =~= clipped(s, n));
}

/// Bytes are kept one by one: each is the character of its number, so that
/// different bytes are different texts.
pub proof fn law_byte_texts_keep_the_bytes(a: Seq<u8>, b: Seq<u8>)
    ensures
        byte_text(a).len() == a.len(),
        forall|i: int| 0 <= i < a.len() ==> (#[trigger] byte_text(a)[i]) as int == a[i],
        byte_text(a) == byte_text(b) ==> a == b,
{
    assert forall|i: int| 0 <= i < a.len() implies (#[trigger] byte_text(a)[i]) as int == a[i] by {}
    if byte_text(a) == byte_text(b) {
        assert(a.len() == byte_text(a).len() && b.len() == byte_text(b).len());
        assert forall|i: int| 0 <= i < a.len() implies a[i] == b[i] by {
            assert(byte_text(a)[i] as int == a[i]);
            assert(byte_text(b)[i] as int == b[i]);
        }
        assert(a =~= b);
    }
}

/// Parts that hold no separator, joined with it, split into the same parts
/// again.
pub proof fn law_joined_parts_split_again(parts: Seq<Seq<char>>, sep: char)
    requires
        parts.len() > 0,
        forall|i: int| 0 <= i < parts.len() ==> !(#[trigger] parts[i]).contains(sep),
    ensures
        split_on(joined(parts, seq![sep]), sep) == parts,
    decreases parts.len(),
{
    assert(!parts[parts.len() - 1].contains(sep));
    if parts.len() == 1 {
        lemma_unsplit(parts[0], sep);
        assert(seq![parts[0]] =~= parts);
    } else {
        let rest = parts.drop_last();
        assert forall|i: int| 0 <= i < rest.len() implies !(#[trigger] rest[i]).contains(sep) by {
            assert(rest[i] == parts[i]);
        }
        law_joined_parts_split_again(rest, sep);
        let start = joined(rest, seq![sep]);
        let opened = start.push(sep);
        assert(opened.drop_last() =~= start);
        lemma_split_extend(opened, parts.last(), sep);
        assert(start + seq![sep] + parts.last() =~= opened + parts.last());
        assert(split_on(opened, sep) =~= rest.push(Seq::empty()));
        assert(Seq::<char>::empty() + parts.last() =~= parts.last());
        assert(rest.push(Seq::<char>::empty()).drop_last().push(parts.last()) =~= parts);
    }
}

} // verus!
