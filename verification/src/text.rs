//! Text as sequences of characters.
//!
//! Everything here is stated over `Seq<char>`, the view of `str` and `String`,
//! so the modules above can say exactly which text they accept and produce.

use vstd::prelude::*;
use vstd::utf8::{decode_utf8, valid_utf8};

verus! {

/// `String::push` appends one character.
pub assume_specification[ String::push ](string: &mut String, c: char)
    ensures
        final(string)@ == old(string)@.push(c),
;

/// The lowercase equivalent of a text under the Unicode rules that
/// `str::to_lowercase` applies.
pub uninterp spec fn unicode_lowercase(text: Seq<char>) -> Seq<char>;

/// Calls `str::to_lowercase`. The result depends on the text alone; which
/// characters map to which is left to the Unicode tables and not stated.
#[verifier::external_body]
pub(crate) fn to_lowercase(text: &str) -> (lower: String)
    ensures
        lower@ == unicode_lowercase(text@),
{
    text.to_lowercase()
}

/// Calls `std::str::from_utf8`, which accepts exactly the well-formed UTF-8
/// byte strings and returns the text they encode.
#[verifier::external_body]
pub(crate) fn utf8_text(bytes: &[u8]) -> (text: Option<&str>)
    ensures
        text is Some <==> valid_utf8(bytes@),
        text matches Some(t) ==> t@ == decode_utf8(bytes@),
{
    std::str::from_utf8(bytes).ok()
}

/// The characters of each text.
pub open spec fn texts(parts: Seq<String>) -> Seq<Seq<char>> {
    parts.map_values(|part: String| part@)
}

/// Characters with the Unicode `White_Space` property.
pub open spec fn is_space(c: char) -> bool {
    let n = c as u32;
    ||| 0x09 <= n <= 0x0d
    ||| n == 0x20
    ||| n == 0x85
    ||| n == 0xa0
    ||| n == 0x1680
    ||| 0x2000 <= n <= 0x200a
    ||| n == 0x2028
    ||| n == 0x2029
    ||| n == 0x202f
    ||| n == 0x205f
    ||| n == 0x3000
}

pub open spec fn trim_start(s: Seq<char>) -> Seq<char>
    decreases s.len(),
{
    if s.len() > 0 && is_space(s[0]) {
        trim_start(s.drop_first())
    } else {
        s
    }
}

pub open spec fn trim_end(s: Seq<char>) -> Seq<char>
    decreases s.len(),
{
    if s.len() > 0 && is_space(s.last()) {
        trim_end(s.drop_last())
    } else {
        s
    }
}

/// `s` without leading and trailing white space.
pub open spec fn trim(s: Seq<char>) -> Seq<char> {
    trim_end(trim_start(s))
}

/// `s` without trailing occurrences of `c`.
pub open spec fn trim_end_char(s: Seq<char>, c: char) -> Seq<char>
    decreases s.len(),
{
    if s.len() > 0 && s.last() == c {
        trim_end_char(s.drop_last(), c)
    } else {
        s
    }
}

pub open spec fn ascii_lower_char(c: char) -> char {
    if 'A' <= c <= 'Z' {
        ((c as u32 + 32) as u32) as char
    } else {
        c
    }
}

/// `s` with the letters `A` to `Z` replaced by `a` to `z`.
pub open spec fn ascii_lower(s: Seq<char>) -> Seq<char> {
    s.map_values(|c: char| ascii_lower_char(c))
}

/// Equality that ignores the case of ASCII letters.
pub open spec fn same_ignoring_ascii_case(a: Seq<char>, b: Seq<char>) -> bool {
    ascii_lower(a) == ascii_lower(b)
}

/// Whether `needle` starts at position `at` of `s`.
pub open spec fn occurs_at(s: Seq<char>, needle: Seq<char>, at: int) -> bool {
    0 <= at && at + needle.len() <= s.len() && s.subrange(at, at + needle.len() as int) == needle
}

/// Whether `needle` occurs anywhere in `s`.
pub open spec fn contains_text(s: Seq<char>, needle: Seq<char>) -> bool {
    exists|at: int| occurs_at(s, needle, at)
}

/// The position of the first `c` in `s`, or the length of `s`.
pub open spec fn first_index(s: Seq<char>, c: char) -> nat
    decreases s.len(),
{
    if s.len() == 0 || s[0] == c {
        0
    } else {
        1 + first_index(s.drop_first(), c)
    }
}

/// The pieces of `s` between the separators `c`, empty pieces kept.
pub open spec fn split(s: Seq<char>, c: char) -> Seq<Seq<char>>
    decreases s.len(),
{
    if s.len() == 0 {
        seq![Seq::<char>::empty()]
    } else {
        let pieces = split(s.drop_last(), c);
        if s.last() == c {
            pieces.push(Seq::<char>::empty())
        } else {
            pieces.drop_last().push(pieces.last().push(s.last()))
        }
    }
}

/// The parts one after the other, `separator` between each two.
pub open spec fn join(parts: Seq<Seq<char>>, separator: Seq<char>) -> Seq<char>
    decreases parts.len(),
{
    if parts.len() == 0 {
        Seq::<char>::empty()
    } else if parts.len() == 1 {
        parts[0]
    } else {
        join(parts.drop_last(), separator) + separator + parts.last()
    }
}

/// `s` with every `c` replaced by the text `with`.
pub open spec fn replace_char(s: Seq<char>, c: char, with: Seq<char>) -> Seq<char>
    decreases s.len(),
{
    if s.len() == 0 {
        Seq::<char>::empty()
    } else {
        replace_char(s.drop_last(), c, with) + (if s.last() == c {
            with
        } else {
            seq![s.last()]
        })
    }
}

/// Lexicographic order by code point, which is also the order of the UTF-8
/// bytes.
pub open spec fn text_less(a: Seq<char>, b: Seq<char>) -> bool
    decreases a.len(),
{
    if b.len() == 0 {
        false
    } else if a.len() == 0 {
        true
    } else if a[0] != b[0] {
        a[0] < b[0]
    } else {
        text_less(a.drop_first(), b.drop_first())
    }
}

pub open spec fn digit_char(d: nat) -> char {
    if d == 0 { '0' } else if d == 1 { '1' } else if d == 2 { '2' } else if d == 3 { '3' }
    else if d == 4 { '4' } else if d == 5 { '5' } else if d == 6 { '6' } else if d == 7 { '7' }
    else if d == 8 { '8' } else { '9' }
}

/// The decimal notation of `n`, without leading zeros.
pub open spec fn decimal(n: nat) -> Seq<char>
    decreases n,
{
    if n < 10 {
        seq![digit_char(n)]
    } else {
        decimal(n / 10).push(digit_char(n % 10))
    }
}

pub open spec fn hex_char(d: nat) -> char {
    if d < 10 { digit_char(d) } else if d == 10 { 'a' } else if d == 11 { 'b' }
    else if d == 12 { 'c' } else if d == 13 { 'd' } else if d == 14 { 'e' } else { 'f' }
}

/// The lowercase hexadecimal notation of `n`, without leading zeros.
pub open spec fn hexadecimal(n: nat) -> Seq<char>
    decreases n,
{
    if n < 16 {
        seq![hex_char(n)]
    } else {
        hexadecimal(n / 16).push(hex_char(n % 16))
    }
}

pub open spec fn is_digit(c: char) -> bool {
    '0' <= c <= '9'
}

/// The number a string of decimal digits denotes.
pub open spec fn digits_value(s: Seq<char>) -> nat
    decreases s.len(),
{
    if s.len() == 0 {
        0
    } else {
        digits_value(s.drop_last()) * 10 + (s.last() as nat - '0' as nat) as nat
    }
}

pub open spec fn all_digits(s: Seq<char>) -> bool {
    s.len() > 0 && forall|i: int| 0 <= i < s.len() ==> is_digit(#[trigger] s[i])
}

/// The digits of an unsigned number in decimal notation: an optional plus
/// sign is not one of them.
pub open spec fn unsigned_digits(s: Seq<char>) -> Seq<char> {
    if s.len() > 0 && s[0] == '+' {
        s.drop_first()
    } else {
        s
    }
}

/// The number at most `limit` that `s` denotes, if it denotes one: an
/// optional plus sign followed by at least one digit.
pub open spec fn unsigned_value(s: Seq<char>, limit: nat) -> Option<nat> {
    let digits = unsigned_digits(s);
    if all_digits(digits) && digits_value(digits) <= limit {
        Some(digits_value(digits))
    } else {
        None
    }
}

// Conversions

/// The characters of `text`.
pub fn chars_of(text: &str) -> (chars: Vec<char>)
    ensures
        chars@ == text@,
{
    let mut chars: Vec<char> = Vec::new();
    for c in iter: text.chars()
        invariant
            chars@ == iter.seq().subrange(0, iter.index() as int),
            iter.seq() == text@,
    {
        chars.push(c);
    }
    assert(text@.subrange(0, text@.len() as int) =~= text@);
    chars
}

/// The text made of the characters from `from` up to `to`.
pub fn range_text(chars: &[char], from: usize, to: usize) -> (text: String)
    requires
        from <= to <= chars.len(),
    ensures
        text@ == chars@.subrange(from as int, to as int),
{
    let mut text = String::new();
    let mut i: usize = from;
    while i < to
        invariant
            from <= i <= to <= chars.len(),
            text@ == chars@.subrange(from as int, i as int),
        decreases to - i,
    {
        text.push(chars[i]);
        i = i + 1;
    }
    text
}

/// A copy of `text`.
pub fn owned(text: &str) -> (copy: String)
    ensures
        copy@ == text@,
{
    String::from_str(text)
}

/// Whether two texts hold the same characters.
pub fn same(a: &str, b: &str) -> (equal: bool)
    ensures
        equal == (a@ == b@),
{
    same_chars(&chars_of(a), &chars_of(b))
}

pub fn same_chars(a: &[char], b: &[char]) -> (equal: bool)
    ensures
        equal == (a@ == b@),
{
    if a.len() != b.len() {
        return false;
    }
    let mut i: usize = 0;
    while i < a.len()
        invariant
            i <= a.len(),
            a@.len() == b@.len(),
            forall|j: int| 0 <= j < i ==> a@[j] == b@[j],
        decreases a.len() - i,
    {
        if a[i] != b[i] {
            assert(a@[i as int] != b@[i as int]);
            return false;
        }
        i = i + 1;
    }
    assert(a@ =~= b@);
    true
}

/// Whether `needle` starts at position `at` of `chars`.
pub fn found_at(chars: &[char], needle: &[char], at: usize) -> (found: bool)
    ensures
        found == occurs_at(chars@, needle@, at as int),
{
    if at > chars.len() || needle.len() > chars.len() - at {
        return false;
    }
    let mut i: usize = 0;
    while i < needle.len()
        invariant
            i <= needle.len(),
            at + needle.len() <= chars.len(),
            forall|j: int| 0 <= j < i ==> chars@[at + j] == needle@[j],
        decreases needle.len() - i,
    {
        if chars[at + i] != needle[i] {
            assert(chars@.subrange(at as int, at + needle@.len())[i as int] != needle@[i as int]);
            return false;
        }
        i = i + 1;
    }
    assert(chars@.subrange(at as int, at + needle@.len()) =~= needle@);
    true
}

pub open spec fn starts_with(s: Seq<char>, prefix: Seq<char>) -> bool {
    occurs_at(s, prefix, 0)
}

pub open spec fn ends_with(s: Seq<char>, suffix: Seq<char>) -> bool {
    occurs_at(s, suffix, s.len() - suffix.len())
}

/// The rest of `s` after `prefix`.
pub open spec fn after_prefix(s: Seq<char>, prefix: Seq<char>) -> Seq<char> {
    s.subrange(prefix.len() as int, s.len() as int)
}

/// Whether `text` begins with `prefix`.
pub fn has_prefix(text: &str, prefix: &str) -> (found: bool)
    ensures
        found == starts_with(text@, prefix@),
{
    found_at(&chars_of(text), &chars_of(prefix), 0)
}

/// Whether `text` ends with `suffix`.
pub fn has_suffix(text: &str, suffix: &str) -> (found: bool)
    ensures
        found == ends_with(text@, suffix@),
{
    let chars = chars_of(text);
    let tail = chars_of(suffix);
    if tail.len() > chars.len() {
        return false;
    }
    found_at(&chars, &tail, chars.len() - tail.len())
}

/// What follows `prefix` in `text`, if `text` begins with it.
pub fn strip_prefix(text: &str, prefix: &str) -> (rest: Option<String>)
    ensures
        rest is Some <==> starts_with(text@, prefix@),
        rest matches Some(r) ==> r@ == after_prefix(text@, prefix@),
{
    let chars = chars_of(text);
    let head = chars_of(prefix);
    if found_at(&chars, &head, 0) {
        Some(range_text(&chars, head.len(), chars.len()))
    } else {
        None
    }
}

/// Whether `needle` occurs in `text`.
pub fn contains(text: &str, needle: &str) -> (found: bool)
    ensures
        found == contains_text(text@, needle@),
{
    let chars = chars_of(text);
    let wanted = chars_of(needle);
    let mut at: usize = 0;
    while at < chars.len()
        invariant
            at <= chars.len(),
            chars@ == text@,
            wanted@ == needle@,
            forall|j: int| 0 <= j < at ==> !occurs_at(text@, needle@, j),
        decreases chars.len() - at,
    {
        if found_at(&chars, &wanted, at) {
            return true;
        }
        at = at + 1;
    }
    found_at(&chars, &wanted, at)
}

pub proof fn lemma_first_index(s: Seq<char>, c: char)
    ensures
        first_index(s, c) <= s.len(),
        forall|j: int| 0 <= j < first_index(s, c) ==> s[j] != c,
        first_index(s, c) < s.len() ==> s[first_index(s, c) as int] == c,
    decreases s.len(),
{
    if s.len() > 0 && s[0] != c {
        let rest = s.drop_first();
        lemma_first_index(rest, c);
        assert forall|j: int| 0 <= j < first_index(s, c) implies s[j] != c by {
            if j > 0 {
                assert(rest[j - 1] != c);
            }
        }
    }
}

/// The position of the first `c`, or the length where there is none.
pub fn index_of(chars: &[char], c: char) -> (at: usize)
    ensures
        at == first_index(chars@, c),
{
    proof {
        lemma_first_index(chars@, c);
    }
    let mut at: usize = 0;
    while at < chars.len()
        invariant
            at <= chars.len(),
            forall|j: int| 0 <= j < at ==> chars@[j] != c,
            first_index(chars@, c) <= chars@.len(),
            forall|j: int| 0 <= j < first_index(chars@, c) ==> chars@[j] != c,
            first_index(chars@, c) < chars@.len() ==> chars@[first_index(chars@, c) as int] == c,
        decreases chars.len() - at,
    {
        if chars[at] == c {
            return at;
        }
        at = at + 1;
    }
    at
}

pub open spec fn contains_char(s: Seq<char>, c: char) -> bool {
    exists|i: int| 0 <= i < s.len() && s[i] == c
}

/// Whether `c` has the `White_Space` property.
pub fn space(c: char) -> (yes: bool)
    ensures
        yes == is_space(c),
{
    let n: u32 = c as u32;
    (0x09 <= n && n <= 0x0d) || n == 0x20 || n == 0x85 || n == 0xa0 || n == 0x1680 || (0x2000 <= n
        && n <= 0x200a) || n == 0x2028 || n == 0x2029 || n == 0x202f || n == 0x205f || n == 0x3000
}

/// `text` without leading and trailing white space.
pub fn trimmed(text: &str) -> (result: String)
    ensures
        result@ == trim(text@),
{
    let chars = chars_of(text);
    let mut from: usize = 0;
    assert(chars@.subrange(0, chars@.len() as int) =~= chars@);
    while from < chars.len() && space(chars[from])
        invariant
            from <= chars.len(),
            trim_start(chars@) == trim_start(chars@.subrange(from as int, chars@.len() as int)),
        decreases chars.len() - from,
    {
        proof {
            let rest = chars@.subrange(from as int, chars@.len() as int);
            assert(rest[0] == chars@[from as int]);
            assert(rest.drop_first() =~= chars@.subrange(from + 1, chars@.len() as int));
        }
        from = from + 1;
    }
    let mut to: usize = chars.len();
    proof {
        let rest = chars@.subrange(from as int, chars@.len() as int);
        if from < chars.len() {
            assert(rest[0] == chars@[from as int]);
        }
        assert(trim_start(chars@) == rest);
    }
    while to > from && space(chars[to - 1])
        invariant
            from <= to <= chars.len(),
            trim(chars@) == trim_end(chars@.subrange(from as int, to as int)),
        decreases to,
    {
        proof {
            let rest = chars@.subrange(from as int, to as int);
            assert(rest.last() == chars@[to - 1]);
            assert(rest.drop_last() =~= chars@.subrange(from as int, to - 1));
        }
        to = to - 1;
    }
    proof {
        let rest = chars@.subrange(from as int, to as int);
        if to > from {
            assert(rest.last() == chars@[to - 1]);
        }
    }
    range_text(&chars, from, to)
}

/// `text` without trailing occurrences of `c`.
pub fn trimmed_end_char(text: &str, c: char) -> (result: String)
    ensures
        result@ == trim_end_char(text@, c),
{
    let chars = chars_of(text);
    let mut to: usize = chars.len();
    assert(chars@.subrange(0, chars@.len() as int) =~= chars@);
    while to > 0 && chars[to - 1] == c
        invariant
            to <= chars.len(),
            trim_end_char(chars@, c) == trim_end_char(chars@.subrange(0, to as int), c),
        decreases to,
    {
        proof {
            let rest = chars@.subrange(0, to as int);
            assert(rest.drop_last() =~= chars@.subrange(0, to - 1));
        }
        to = to - 1;
    }
    range_text(&chars, 0, to)
}

pub fn lower_char(c: char) -> (lower: char)
    ensures
        lower == ascii_lower_char(c),
{
    match c {
        'A' => 'a', 'B' => 'b', 'C' => 'c', 'D' => 'd', 'E' => 'e', 'F' => 'f', 'G' => 'g',
        'H' => 'h', 'I' => 'i', 'J' => 'j', 'K' => 'k', 'L' => 'l', 'M' => 'm', 'N' => 'n',
        'O' => 'o', 'P' => 'p', 'Q' => 'q', 'R' => 'r', 'S' => 's', 'T' => 't', 'U' => 'u',
        'V' => 'v', 'W' => 'w', 'X' => 'x', 'Y' => 'y', 'Z' => 'z',
        _ => c,
    }
}

/// `text` with its ASCII letters in lower case.
pub fn lowered_ascii(text: &str) -> (lower: String)
    ensures
        lower@ == ascii_lower(text@),
{
    let chars = chars_of(text);
    let mut lower = String::new();
    let mut i: usize = 0;
    while i < chars.len()
        invariant
            i <= chars.len(),
            lower@ =~= ascii_lower(chars@.subrange(0, i as int)),
        decreases chars.len() - i,
    {
        lower.push(lower_char(chars[i]));
        i = i + 1;
    }
    assert(chars@.subrange(0, i as int) =~= chars@);
    lower
}

/// Whether two texts are equal but for the case of ASCII letters.
pub fn equal_ignoring_ascii_case(a: &str, b: &str) -> (equal: bool)
    ensures
        equal == same_ignoring_ascii_case(a@, b@),
{
    same(&lowered_ascii(a), &lowered_ascii(b))
}

pub proof fn lemma_split_nonempty(s: Seq<char>, c: char)
    ensures
        split(s, c).len() > 0,
    decreases s.len(),
{
    if s.len() > 0 {
        lemma_split_nonempty(s.drop_last(), c);
    }
}

/// Joining the pieces with the separator gives the text back.
pub proof fn lemma_join_split(s: Seq<char>, c: char)
    ensures
        join(split(s, c), seq![c]) == s,
    decreases s.len(),
{
    if s.len() > 0 {
        let rest = s.drop_last();
        let pieces = split(rest, c);
        lemma_join_split(rest, c);
        lemma_split_nonempty(rest, c);
        assert(s =~= rest.push(s.last()));
        if s.last() == c {
            let longer = pieces.push(Seq::<char>::empty());
            assert(longer.drop_last() =~= pieces);
            assert(join(longer, seq![c]) =~= s);
        } else {
            let longer = pieces.drop_last().push(pieces.last().push(s.last()));
            assert(longer.drop_last() =~= pieces.drop_last());
            assert(join(longer, seq![c]) =~= s);
        }
    }
}

proof fn lemma_split_extend(a: Seq<char>, b: Seq<char>, c: char)
    requires
        !contains_char(b, c),
    ensures
        split(a + b, c) == split(a, c).drop_last().push(split(a, c).last() + b),
    decreases b.len(),
{
    lemma_split_nonempty(a, c);
    if b.len() == 0 {
        assert(a + b =~= a);
        assert(split(a, c).last() + b =~= split(a, c).last());
        assert(split(a, c).drop_last().push(split(a, c).last()) =~= split(a, c));
    } else {
        let head = b.drop_last();
        assert forall|i: int| 0 <= i < head.len() implies head[i] != c by {
            assert(b[i] != c);
        }
        lemma_split_extend(a, head, c);
        assert((a + b).drop_last() =~= a + head);
        assert(b.last() != c) by {
            assert(b[b.len() - 1] != c);
        }
        let pieces = split(a, c).drop_last().push(split(a, c).last() + head);
        assert(pieces.drop_last() =~= split(a, c).drop_last());
        assert((split(a, c).last() + head).push(b.last()) =~= split(a, c).last() + b);
    }
}

/// Splitting what was joined from parts free of the separator gives the parts
/// back.
pub proof fn lemma_split_join(parts: Seq<Seq<char>>, c: char)
    requires
        parts.len() > 0,
        forall|i: int| 0 <= i < parts.len() ==> !contains_char(#[trigger] parts[i], c),
    ensures
        split(join(parts, seq![c]), c) == parts,
    decreases parts.len(),
{
    let empty = Seq::<char>::empty();
    if parts.len() == 1 {
        lemma_split_extend(empty, parts[0], c);
        assert(empty + parts[0] =~= parts[0]);
        assert(split(empty, c).drop_last().push(parts[0]) =~= parts);
    } else {
        let head = parts.drop_last();
        lemma_split_join(head, c);
        let joined = join(head, seq![c]);
        let separated = joined + seq![c];
        assert(separated.drop_last() =~= joined);
        assert(split(separated, c) == head.push(empty));
        lemma_split_extend(separated, parts.last(), c);
        assert(head.push(empty).drop_last() =~= head);
        assert(empty + parts.last() =~= parts.last());
        assert(head.push(parts.last()) =~= parts);
    }
}

/// The pieces of `text` between the separators `c`.
pub fn split_text(text: &str, c: char) -> (pieces: Vec<String>)
    ensures
        texts(pieces@) == split(text@, c),
{
    let chars = chars_of(text);
    let mut pieces: Vec<String> = Vec::new();
    let mut current = String::new();
    let mut i: usize = 0;
    assert(texts(pieces@).push(current@) =~= split(chars@.subrange(0, 0), c));
    while i < chars.len()
        invariant
            i <= chars.len(),
            texts(pieces@).push(current@) == split(chars@.subrange(0, i as int), c),
        decreases chars.len() - i,
    {
        let ghost before = texts(pieces@);
        let ghost piece = current@;
        proof {
            let longer = chars@.subrange(0, i + 1);
            assert(longer.drop_last() =~= chars@.subrange(0, i as int));
            assert(longer.last() == chars@[i as int]);
            assert(before.push(piece).drop_last() =~= before);
        }
        if chars[i] == c {
            pieces.push(current);
            current = String::new();
            assert(texts(pieces@) =~= before.push(piece));
        } else {
            current.push(chars[i]);
        }
        i = i + 1;
    }
    let ghost before = texts(pieces@);
    let ghost piece = current@;
    pieces.push(current);
    assert(texts(pieces@) =~= before.push(piece));
    assert(chars@.subrange(0, i as int) =~= chars@);
    pieces
}

/// The parts one after the other with `separator` between each two.
pub fn joined(parts: &[String], separator: &str) -> (text: String)
    ensures
        text@ == join(texts(parts@), separator@),
{
    let mut text = String::new();
    let ghost views = texts(parts@);
    let mut i: usize = 0;
    while i < parts.len()
        invariant
            i <= parts.len(),
            views == texts(parts@),
            text@ == join(views.subrange(0, i as int), separator@),
        decreases parts.len() - i,
    {
        proof {
            let longer = views.subrange(0, i + 1);
            assert(longer.drop_last() =~= views.subrange(0, i as int));
            assert(longer.last() == parts@[i as int]@);
        }
        if i > 0 {
            text.append(separator);
        }
        text.append(parts[i].as_str());
        i = i + 1;
        assert(text@ =~= join(views.subrange(0, i as int), separator@));
    }
    assert(views.subrange(0, i as int) =~= views);
    text
}

/// `text` with every `c` replaced by `with`.
pub fn replaced_char(text: &str, c: char, with: &str) -> (result: String)
    ensures
        result@ == replace_char(text@, c, with@),
{
    let chars = chars_of(text);
    let mut result = String::new();
    let mut i: usize = 0;
    while i < chars.len()
        invariant
            i <= chars.len(),
            result@ == replace_char(chars@.subrange(0, i as int), c, with@),
        decreases chars.len() - i,
    {
        proof {
            let longer = chars@.subrange(0, i + 1);
            assert(longer.drop_last() =~= chars@.subrange(0, i as int));
            assert(longer.last() == chars@[i as int]);
        }
        if chars[i] == c {
            result.append(with);
        } else {
            result.push(chars[i]);
        }
        i = i + 1;
        assert(result@ =~= replace_char(chars@.subrange(0, i as int), c, with@));
    }
    assert(chars@.subrange(0, i as int) =~= chars@);
    result
}

/// Whether `a` comes before `b` in code point order.
pub fn less(a: &str, b: &str) -> (before: bool)
    ensures
        before == text_less(a@, b@),
{
    let left = chars_of(a);
    let right = chars_of(b);
    let mut i: usize = 0;
    assert(left@.subrange(0, left@.len() as int) =~= left@);
    assert(right@.subrange(0, right@.len() as int) =~= right@);
    while i < left.len() && i < right.len()
        invariant
            i <= left.len(),
            i <= right.len(),
            left@ == a@,
            right@ == b@,
            text_less(left@, right@) == text_less(
                left@.subrange(i as int, left@.len() as int),
                right@.subrange(i as int, right@.len() as int),
            ),
        decreases left.len() - i,
    {
        proof {
            let l = left@.subrange(i as int, left@.len() as int);
            let r = right@.subrange(i as int, right@.len() as int);
            assert(l[0] == left@[i as int] && r[0] == right@[i as int]);
            assert(l.drop_first() =~= left@.subrange(i + 1, left@.len() as int));
            assert(r.drop_first() =~= right@.subrange(i + 1, right@.len() as int));
        }
        if left[i] != right[i] {
            return left[i] < right[i];
        }
        i = i + 1;
    }
    i < right.len()
}

pub proof fn lemma_push_contains<A>(s: Seq<A>, pushed: A, x: A)
    ensures
        s.push(pushed).contains(x) <==> s.contains(x) || x == pushed,
{
    let t = s.push(pushed);
    if s.contains(x) {
        let i = choose|i: int| 0 <= i < s.len() && s[i] == x;
        assert(t[i] == x);
    }
    if x == pushed {
        assert(t[s.len() as int] == x);
    }
    if t.contains(x) {
        let i = choose|i: int| 0 <= i < t.len() && t[i] == x;
        if i < s.len() {
            assert(s[i] == x);
        }
    }
}

pub proof fn lemma_push_no_duplicates<A>(s: Seq<A>, pushed: A)
    requires
        s.no_duplicates(),
        !s.contains(pushed),
    ensures
        s.push(pushed).no_duplicates(),
{
    let t = s.push(pushed);
    assert forall|i: int, j: int| 0 <= i < t.len() && 0 <= j < t.len() && i != j implies t[i]
        != t[j] by {
        if i < s.len() && j < s.len() {
            assert(s[i] != s[j]);
        } else if i < s.len() {
            assert(s.contains(s[i]));
        } else {
            assert(s.contains(s[j]));
        }
    }
}

/// Whether `text` is one of `list`.
pub fn holds(list: &Vec<String>, text: &str) -> (found: bool)
    ensures
        found == texts(list@).contains(text@),
{
    let mut i: usize = 0;
    while i < list.len()
        invariant
            i <= list@.len(),
            forall|j: int| 0 <= j < i ==> texts(list@)[j] != text@,
        decreases list@.len() - i,
    {
        assert(texts(list@)[i as int] == list@[i as int]@);
        if same(list[i].as_str(), text) {
            return true;
        }
        i = i + 1;
    }
    false
}

pub fn digit(d: u8) -> (c: char)
    requires
        d < 10,
    ensures
        c == digit_char(d as nat),
{
    match d {
        0 => '0', 1 => '1', 2 => '2', 3 => '3', 4 => '4', 5 => '5', 6 => '6', 7 => '7', 8 => '8',
        _ => '9',
    }
}

/// Appends the decimal notation of `n`.
pub fn push_decimal(text: &mut String, n: u128)
    ensures
        final(text)@ == old(text)@ + decimal(n as nat),
    decreases n,
{
    if n >= 10 {
        push_decimal(text, n / 10);
    }
    text.push(digit((n % 10) as u8));
    assert(text@ =~= old(text)@ + decimal(n as nat));
}

/// The decimal notation of `n`.
pub fn decimal_text(n: u128) -> (text: String)
    ensures
        text@ == decimal(n as nat),
{
    let mut text = String::new();
    push_decimal(&mut text, n);
    assert(text@ =~= decimal(n as nat));
    text
}

pub fn hex_digit(d: u8) -> (c: char)
    requires
        d < 16,
    ensures
        c == hex_char(d as nat),
{
    match d {
        10 => 'a', 11 => 'b', 12 => 'c', 13 => 'd', 14 => 'e', 15 => 'f',
        _ => digit(d),
    }
}

/// Appends the lowercase hexadecimal notation of `n`.
pub fn push_hexadecimal(text: &mut String, n: u128)
    ensures
        final(text)@ == old(text)@ + hexadecimal(n as nat),
    decreases n,
{
    if n >= 16 {
        push_hexadecimal(text, n / 16);
    }
    text.push(hex_digit((n % 16) as u8));
    assert(text@ =~= old(text)@ + hexadecimal(n as nat));
}

/// The `width` low-order hexadecimal digits of `n`, leading zeros kept.
pub open spec fn fixed_hex(n: nat, width: nat) -> Seq<char>
    decreases width,
{
    if width == 0 {
        Seq::<char>::empty()
    } else {
        fixed_hex(n / 16, (width - 1) as nat).push(hex_char(n % 16))
    }
}

/// Appends the `width` low-order hexadecimal digits of `n`.
pub fn push_fixed_hex(text: &mut String, n: u128, width: usize)
    ensures
        final(text)@ == old(text)@ + fixed_hex(n as nat, width as nat),
    decreases width,
{
    if width > 0 {
        push_fixed_hex(text, n / 16, width - 1);
        text.push(hex_digit((n % 16) as u8));
    }
    assert(text@ =~= old(text)@ + fixed_hex(n as nat, width as nat));
}

/// `s` followed by as many spaces as `width` needs.
pub open spec fn padded(s: Seq<char>, width: nat) -> Seq<char> {
    if s.len() >= width {
        s
    } else {
        s + Seq::new((width - s.len()) as nat, |i: int| ' ')
    }
}

/// Appends `part`, followed by as many spaces as `width` needs.
pub fn push_padded(text: &mut String, part: &str, width: usize)
    ensures
        final(text)@ == old(text)@ + padded(part@, width as nat),
{
    let ghost before = text@;
    text.append(part);
    let mut length = part.unicode_len();
    while length < width
        invariant
            part@.len() <= length,
            length <= width || part@.len() >= width,
            part@.len() >= width ==> text@ == before + part@,
            text@ =~= before + part@ + Seq::new((length - part@.len()) as nat, |i: int| ' '),
        decreases width - length,
    {
        text.push(' ');
        length = length + 1;
    }
    assert(text@ =~= before + padded(part@, width as nat));
}

pub proof fn lemma_digits_value_monotonic(s: Seq<char>, i: int)
    requires
        0 <= i <= s.len(),
    ensures
        digits_value(s.subrange(0, i)) <= digits_value(s),
    decreases s.len() - i,
{
    if i < s.len() {
        lemma_digits_value_monotonic(s, i + 1);
        assert(s.subrange(0, i + 1).drop_last() =~= s.subrange(0, i));
    } else {
        assert(s.subrange(0, i) =~= s);
    }
}

/// Decimal notation consists of digits and denotes the number it is of.
pub proof fn lemma_decimal_digits(n: nat)
    ensures
        all_digits(decimal(n)),
        digits_value(decimal(n)) == n,
        n >= 10 ==> decimal(n).len() > 1,
    decreases n,
{
    reveal_with_fuel(digits_value, 2);
    if n >= 10 {
        lemma_decimal_digits(n / 10);
        let s = decimal(n);
        assert(s.drop_last() =~= decimal(n / 10));
        assert forall|i: int| 0 <= i < s.len() implies is_digit(#[trigger] s[i]) by {
            if i < s.len() - 1 {
                assert(is_digit(decimal(n / 10)[i]));
            }
        }
    } else {
        let s = decimal(n);
        assert(s.drop_last() =~= Seq::<char>::empty());
        assert(is_digit(s[0]));
    }
}

/// Different numbers have different decimal notations.
pub proof fn lemma_decimal_injective(a: nat, b: nat)
    requires
        decimal(a) == decimal(b),
    ensures
        a == b,
{
    lemma_decimal_digits(a);
    lemma_decimal_digits(b);
}

/// The number of at most `limit` that the digits `chars[from..]` denote.
pub fn digits_number(chars: &[char], from: usize, limit: u64) -> (value: Option<u64>)
    requires
        from <= chars.len(),
    ensures
        ({
            let digits = chars@.subrange(from as int, chars@.len() as int);
            &&& value is Some <==> all_digits(digits) && digits_value(digits) <= limit
            &&& value matches Some(v) ==> v == digits_value(digits)
        }),
{
    let ghost digits = chars@.subrange(from as int, chars@.len() as int);
    if from == chars.len() {
        return None;
    }
    let mut value: u64 = 0;
    let mut i: usize = from;
    while i < chars.len()
        invariant
            from <= i <= chars.len(),
            digits == chars@.subrange(from as int, chars@.len() as int),
            value == digits_value(digits.subrange(0, i - from)),
            value <= limit,
            forall|j: int| 0 <= j < i - from ==> is_digit(#[trigger] digits[j]),
        decreases chars.len() - i,
    {
        let c = chars[i];
        assert(digits[i - from] == c);
        if c < '0' || c > '9' {
            return None;
        }
        proof {
            let longer = digits.subrange(0, i - from + 1);
            assert(longer.drop_last() =~= digits.subrange(0, i - from));
            assert(longer.last() == c);
            lemma_digits_value_monotonic(digits, i - from + 1);
        }
        let next: u128 = value as u128 * 10 + (c as u32 - '0' as u32) as u128;
        if next > limit as u128 {
            return None;
        }
        value = next as u64;
        i = i + 1;
    }
    assert(digits.subrange(0, i - from) =~= digits);
    Some(value)
}

/// The number of at most `limit` that `text` denotes, a plus sign allowed.
pub fn parse_unsigned(text: &str, limit: u64) -> (value: Option<u64>)
    ensures
        match unsigned_value(text@, limit as nat) {
            Some(v) => value matches Some(w) && v == w,
            None => value is None,
        },
{
    let chars = chars_of(text);
    if chars.len() > 0 && chars[0] == '+' {
        digits_number(&chars, 1, limit)
    } else {
        assert(chars@.subrange(0, chars@.len() as int) =~= chars@);
        digits_number(&chars, 0, limit)
    }
}

// Order

/// Of two different texts, one comes before the other.
pub proof fn lemma_less_total(a: Seq<char>, b: Seq<char>)
    ensures
        text_less(a, b) || a == b || text_less(b, a),
        !(text_less(a, b) && text_less(b, a)),
        a == b ==> !text_less(a, b),
    decreases a.len(),
{
    if a.len() > 0 && b.len() > 0 && a[0] == b[0] {
        lemma_less_total(a.drop_first(), b.drop_first());
        if a.drop_first() == b.drop_first() {
            assert(a =~= seq![a[0]] + a.drop_first());
            assert(b =~= seq![b[0]] + b.drop_first());
        }
    } else if a.len() == 0 && b.len() == 0 {
        assert(a =~= b);
    }
}

/// What comes before a text comes before all that follow it.
pub proof fn lemma_less_transitive(a: Seq<char>, b: Seq<char>, c: Seq<char>)
    requires
        text_less(a, b),
        text_less(b, c),
    ensures
        text_less(a, c),
    decreases a.len(),
{
    if a.len() > 0 && a[0] == b[0] && b[0] == c[0] {
        lemma_less_transitive(a.drop_first(), b.drop_first(), c.drop_first());
    }
}

// Bytes of the UTF-8 encoding

/// How many bytes the UTF-8 encoding of `c` takes.
pub open spec fn utf8_width(c: char) -> nat {
    let n = c as u32;
    if n < 0x80 {
        1
    } else if n < 0x800 {
        2
    } else if n < 0x1_0000 {
        3
    } else {
        4
    }
}

/// How many bytes the UTF-8 encoding of `s` takes.
pub open spec fn byte_length(s: Seq<char>) -> nat
    decreases s.len(),
{
    if s.len() == 0 {
        0
    } else {
        byte_length(s.drop_last()) + utf8_width(s.last())
    }
}

/// What follows the first `offset` bytes of the UTF-8 encoding of `s`, if the
/// encoding of a character ends there.
pub open spec fn after_bytes(s: Seq<char>, offset: nat) -> Option<Seq<char>>
    decreases s.len(),
{
    if offset == 0 {
        Some(s)
    } else if s.len() == 0 || utf8_width(s[0]) > offset {
        None
    } else {
        after_bytes(s.drop_first(), (offset - utf8_width(s[0])) as nat)
    }
}

pub fn char_bytes(c: char) -> (width: u128)
    ensures
        width == utf8_width(c),
{
    let n: u32 = c as u32;
    if n < 0x80 {
        1
    } else if n < 0x800 {
        2
    } else if n < 0x1_0000 {
        3
    } else {
        4
    }
}

/// How many bytes the first `to` characters take.
pub fn byte_count(chars: &[char], to: usize) -> (count: u128)
    requires
        to <= chars.len(),
    ensures
        count == byte_length(chars@.subrange(0, to as int)),
        count <= 4 * to,
{
    let mut count: u128 = 0;
    let mut i: usize = 0;
    while i < to
        invariant
            i <= to <= chars.len(),
            count == byte_length(chars@.subrange(0, i as int)),
            count <= 4 * i,
        decreases to - i,
    {
        count = count + char_bytes(chars[i]);
        i = i + 1;
        assert(chars@.subrange(0, i as int).drop_last() =~= chars@.subrange(0, i - 1));
    }
    count
}

/// The position of the character that starts `offset` bytes into `chars`.
pub fn after_byte_offset(chars: &[char], offset: u128) -> (at: Option<usize>)
    ensures
        match after_bytes(chars@, offset as nat) {
            Some(rest) => at matches Some(i) && i <= chars@.len() && rest == chars@.subrange(
                i as int,
                chars@.len() as int,
            ),
            None => at is None,
        },
{
    let mut left: u128 = offset;
    let mut i: usize = 0;
    assert(chars@.subrange(0, chars@.len() as int) =~= chars@);
    while left > 0
        invariant
            i <= chars.len(),
            after_bytes(chars@, offset as nat) == after_bytes(
                chars@.subrange(i as int, chars@.len() as int),
                left as nat,
            ),
        decreases left,
    {
        if i == chars.len() {
            return None;
        }
        proof {
            let rest = chars@.subrange(i as int, chars@.len() as int);
            assert(rest[0] == chars@[i as int]);
            assert(rest.drop_first() =~= chars@.subrange(i + 1, chars@.len() as int));
        }
        let width = char_bytes(chars[i]);
        if width > left {
            return None;
        }
        left = left - width;
        i = i + 1;
    }
    Some(i)
}

// Searching

/// The first position of `needle` in `s` that is not before `from`.
pub open spec fn find_from(s: Seq<char>, needle: Seq<char>, from: int) -> Option<int>
    decreases s.len() - from,
{
    if from < 0 || from + needle.len() > s.len() {
        None
    } else if occurs_at(s, needle, from) {
        Some(from)
    } else if from == s.len() {
        None
    } else {
        find_from(s, needle, from + 1)
    }
}

/// The first position of `needle` in `chars`.
pub fn find(chars: &[char], needle: &[char]) -> (at: Option<usize>)
    ensures
        match find_from(chars@, needle@, 0) {
            Some(i) => at matches Some(j) && i == j && i + needle@.len() <= chars@.len(),
            None => at is None,
        },
{
    let mut from: usize = 0;
    loop
        invariant
            from <= chars.len(),
            find_from(chars@, needle@, 0) == find_from(chars@, needle@, from as int),
        decreases chars.len() - from,
    {
        if needle.len() > chars.len() - from {
            return None;
        }
        if found_at(chars, needle, from) {
            return Some(from);
        }
        if from == chars.len() {
            return None;
        }
        from = from + 1;
    }
}

/// `s` without leading occurrences of `c`.
pub open spec fn trim_start_char(s: Seq<char>, c: char) -> Seq<char>
    decreases s.len(),
{
    if s.len() > 0 && s[0] == c {
        trim_start_char(s.drop_first(), c)
    } else {
        s
    }
}

/// `text` without leading occurrences of `c`.
pub fn trimmed_start_char(text: &str, c: char) -> (result: String)
    ensures
        result@ == trim_start_char(text@, c),
{
    let chars = chars_of(text);
    let mut from: usize = 0;
    assert(chars@.subrange(0, chars@.len() as int) =~= chars@);
    while from < chars.len() && chars[from] == c
        invariant
            from <= chars.len(),
            trim_start_char(chars@, c) == trim_start_char(
                chars@.subrange(from as int, chars@.len() as int),
                c,
            ),
        decreases chars.len() - from,
    {
        proof {
            let rest = chars@.subrange(from as int, chars@.len() as int);
            assert(rest[0] == chars@[from as int]);
            assert(rest.drop_first() =~= chars@.subrange(from + 1, chars@.len() as int));
        }
        from = from + 1;
    }
    proof {
        let rest = chars@.subrange(from as int, chars@.len() as int);
        if from < chars.len() {
            assert(rest[0] == chars@[from as int]);
        }
    }
    range_text(&chars, from, chars.len())
}

// Words

/// The pieces of `s` between its white space characters, empty pieces kept.
pub open spec fn space_pieces(s: Seq<char>) -> Seq<Seq<char>>
    decreases s.len(),
{
    if s.len() == 0 {
        seq![Seq::<char>::empty()]
    } else {
        let pieces = space_pieces(s.drop_last());
        if is_space(s.last()) {
            pieces.push(Seq::<char>::empty())
        } else {
            pieces.drop_last().push(pieces.last().push(s.last()))
        }
    }
}

/// The pieces that hold at least one character.
pub open spec fn nonempty(pieces: Seq<Seq<char>>) -> Seq<Seq<char>>
    decreases pieces.len(),
{
    if pieces.len() == 0 {
        Seq::<Seq<char>>::empty()
    } else if pieces.last().len() == 0 {
        nonempty(pieces.drop_last())
    } else {
        nonempty(pieces.drop_last()).push(pieces.last())
    }
}

/// The maximal runs of characters of `s` that are not white space.
pub open spec fn words(s: Seq<char>) -> Seq<Seq<char>> {
    nonempty(space_pieces(s))
}

/// The words of `text`.
pub fn split_words(text: &str) -> (list: Vec<String>)
    ensures
        texts(list@) == words(text@),
{
    let chars = chars_of(text);
    let mut list: Vec<String> = Vec::new();
    let mut current = String::new();
    let ghost mut pieces = Seq::<Seq<char>>::empty();
    let mut i: usize = 0;
    assert(pieces.push(current@) =~= space_pieces(chars@.subrange(0, 0)));
    assert(texts(list@) =~= nonempty(pieces));
    while i < chars.len()
        invariant
            i <= chars.len(),
            pieces.push(current@) == space_pieces(chars@.subrange(0, i as int)),
            texts(list@) == nonempty(pieces),
        decreases chars.len() - i,
    {
        let ghost before = texts(list@);
        let ghost piece = current@;
        proof {
            let longer = chars@.subrange(0, i + 1);
            assert(longer.drop_last() =~= chars@.subrange(0, i as int));
            assert(longer.last() == chars@[i as int]);
            assert(pieces.push(piece).drop_last() =~= pieces);
        }
        if space(chars[i]) {
            proof {
                pieces = pieces.push(piece);
            }
            if current.unicode_len() > 0 {
                list.push(current);
                assert(texts(list@) =~= before.push(piece));
                current = String::new();
            }
            assert(current@ =~= Seq::<char>::empty());
        } else {
            current.push(chars[i]);
        }
        i = i + 1;
    }
    assert(chars@.subrange(0, i as int) =~= chars@);
    assert(pieces.push(current@).drop_last() =~= pieces);
    if current.unicode_len() > 0 {
        let ghost before = texts(list@);
        let ghost piece = current@;
        list.push(current);
        assert(texts(list@) =~= before.push(piece));
    }
    list
}

/// The position of the last `c`, if there is one.
pub open spec fn last_index(s: Seq<char>, c: char) -> Option<int>
    decreases s.len(),
{
    if s.len() == 0 {
        None
    } else if s.last() == c {
        Some(s.len() - 1)
    } else {
        last_index(s.drop_last(), c)
    }
}

/// The position of the last `c` in `chars`.
pub fn rfind(chars: &[char], c: char) -> (at: Option<usize>)
    ensures
        match last_index(chars@, c) {
            Some(i) => at matches Some(j) && i == j && 0 <= i < chars@.len(),
            None => at is None,
        },
{
    let mut to: usize = chars.len();
    assert(chars@.subrange(0, chars@.len() as int) =~= chars@);
    while to > 0
        invariant
            to <= chars.len(),
            last_index(chars@, c) == last_index(chars@.subrange(0, to as int), c),
        decreases to,
    {
        proof {
            let rest = chars@.subrange(0, to as int);
            assert(rest.last() == chars@[to - 1]);
            assert(rest.drop_last() =~= chars@.subrange(0, to - 1));
        }
        if chars[to - 1] == c {
            return Some(to - 1);
        }
        to = to - 1;
    }
    None
}

/// Trimming takes white space from both ends and nothing else: what stays is
/// the part of the text from the first to the last character that is none.
pub proof fn trimming_takes_only_the_margins(s: Seq<char>) -> (range: (int, int))
    ensures
        0 <= range.0 <= range.1 <= s.len(),
        trim(s) == s.subrange(range.0, range.1),
        forall|i: int| 0 <= i < range.0 ==> is_space(#[trigger] s[i]),
        forall|i: int| range.1 <= i < s.len() ==> is_space(#[trigger] s[i]),
        trim(s).len() > 0 ==> !is_space(trim(s)[0]) && !is_space(trim(s).last()),
{
    let from = lemma_trim_start(s);
    let rest = trim_start(s);
    let to = lemma_trim_end(rest);
    assert(trim(s) =~= s.subrange(from, from + to));
    assert forall|i: int| from + to <= i < s.len() implies is_space(#[trigger] s[i]) by {
        assert(rest[i - from] == s[i]);
    }
    if to > 0 {
        assert(trim(s)[0] == rest[0]);
    }
    (from, from + to)
}

proof fn lemma_trim_start(s: Seq<char>) -> (from: int)
    ensures
        0 <= from <= s.len(),
        trim_start(s) == s.subrange(from, s.len() as int),
        forall|i: int| 0 <= i < from ==> is_space(#[trigger] s[i]),
        from < s.len() ==> !is_space(s[from]),
    decreases s.len(),
{
    if s.len() > 0 && is_space(s[0]) {
        let rest = s.drop_first();
        let from = lemma_trim_start(rest);
        assert(rest.subrange(from, rest.len() as int) =~= s.subrange(from + 1, s.len() as int));
        assert forall|i: int| 0 <= i < from + 1 implies is_space(#[trigger] s[i]) by {
            if i > 0 {
                assert(rest[i - 1] == s[i]);
            }
        }
        from + 1
    } else {
        assert(s.subrange(0, s.len() as int) =~= s);
        0
    }
}

proof fn lemma_trim_end(s: Seq<char>) -> (to: int)
    ensures
        0 <= to <= s.len(),
        trim_end(s) == s.subrange(0, to),
        forall|i: int| to <= i < s.len() ==> is_space(#[trigger] s[i]),
        to > 0 ==> !is_space(s[to - 1]),
    decreases s.len(),
{
    if s.len() > 0 && is_space(s.last()) {
        let rest = s.drop_last();
        let to = lemma_trim_end(rest);
        assert(rest.subrange(0, to) =~= s.subrange(0, to));
        assert forall|i: int| to <= i < s.len() implies is_space(#[trigger] s[i]) by {
            if i < rest.len() {
                assert(rest[i] == s[i]);
            }
        }
        to
    } else {
        assert(s.subrange(0, s.len() as int) =~= s);
        s.len() as int
    }
}

/// A text without white space is left as it is.
pub proof fn lemma_nothing_to_trim(s: Seq<char>)
    requires
        forall|i: int| 0 <= i < s.len() ==> !is_space(#[trigger] s[i]),
    ensures
        trim(s) == s,
{
    let (from, to) = trimming_takes_only_the_margins(s);
    if from > 0 {
        assert(is_space(s[0]));
    }
    if to < s.len() {
        assert(is_space(s[to]));
    }
    assert(s.subrange(0, s.len() as int) =~= s);
}

/// Lower case changes the letters from `A` to `Z` and no other character.
pub proof fn lower_case_changes_only_letters(s: Seq<char>, i: int)
    requires
        0 <= i < s.len(),
    ensures
        ascii_lower(s).len() == s.len(),
        65 <= s[i] as u32 <= 90 ==> ascii_lower(s)[i] as u32 == s[i] as u32 + 32,
        !(65 <= s[i] as u32 <= 90) ==> ascii_lower(s)[i] == s[i],
{
}

/// Replacing a character by a text leaves a text without it alone, puts the
/// text in the place of the character, and works piece by piece.
pub proof fn replacing_works_piece_by_piece(
    a: Seq<char>,
    b: Seq<char>,
    c: char,
    with: Seq<char>,
)
    ensures
        replace_char(a + b, c, with) == replace_char(a, c, with) + replace_char(b, c, with),
        replace_char(seq![c], c, with) == with,
        !contains_char(a, c) ==> replace_char(a, c, with) == a,
    decreases a.len() + b.len(),
{
    assert(seq![c].drop_last() =~= Seq::<char>::empty());
    assert(replace_char(seq![c].drop_last(), c, with) == Seq::<char>::empty());
    assert(seq![c].last() == c);
    assert(replace_char(seq![c], c, with) == Seq::<char>::empty() + with);
    assert(Seq::<char>::empty() + with =~= with);
    if b.len() > 0 {
        replacing_works_piece_by_piece(a, b.drop_last(), c, with);
        assert((a + b).drop_last() =~= a + b.drop_last());
        assert((a + b).last() == b.last());
        assert(replace_char(a + b, c, with) =~= replace_char(a, c, with) + replace_char(
            b,
            c,
            with,
        ));
    } else {
        assert(a + b =~= a);
        assert(replace_char(a, c, with) + replace_char(b, c, with) =~= replace_char(a, c, with));
    }
    if !contains_char(a, c) {
        lemma_nothing_to_replace(a, c, with);
    }
}

proof fn lemma_nothing_to_replace(a: Seq<char>, c: char, with: Seq<char>)
    requires
        !contains_char(a, c),
    ensures
        replace_char(a, c, with) == a,
    decreases a.len(),
{
    if a.len() > 0 {
        let rest = a.drop_last();
        assert forall|i: int| 0 <= i < rest.len() implies rest[i] != c by {
            assert(rest[i] == a[i]);
        }
        lemma_nothing_to_replace(rest, c, with);
        assert(a.last() == a[a.len() - 1]);
        assert(rest + seq![a.last()] =~= a);
    } else {
        assert(a =~= Seq::<char>::empty());
    }
}

/// A number reads back from its decimal notation, with or without a plus sign,
/// exactly where it is within the limit; what holds anything but digits is no
/// number.
pub proof fn numbers_read_back(n: nat, limit: nat, s: Seq<char>, i: int)
    ensures
        n <= limit ==> unsigned_value(decimal(n), limit) == Some(n),
        n <= limit ==> unsigned_value(seq!['+'] + decimal(n), limit) == Some(n),
        n > limit ==> unsigned_value(decimal(n), limit) is None,
        1 <= i < s.len() && !('0' <= s[i] <= '9') ==> unsigned_value(s, limit) is None,
        s.len() > 0 && !('0' <= s[0] <= '9') && s[0] != '+' ==> unsigned_value(s, limit) is None,
        s.len() == 0 ==> unsigned_value(s, limit) is None,
{
    lemma_decimal_digits(n);
    let d = decimal(n);
    assert(is_digit(d[0]));
    let signed = seq!['+'] + d;
    assert(signed.drop_first() =~= d);
    let digits = unsigned_digits(s);
    if 1 <= i < s.len() && !is_digit(s[i]) {
        if s[0] == '+' {
            assert(digits[i - 1] == s[i]);
        } else {
            assert(digits[i] == s[i]);
        }
    }
    if s.len() > 0 && !is_digit(s[0]) && s[0] != '+' {
        assert(digits[0] == s[0]);
    }
}

/// A text that begins with the parts before a separator has its first separator
/// behind them.
pub proof fn lemma_first_index_behind(a: Seq<char>, b: Seq<char>, c: char)
    requires
        !contains_char(a, c),
    ensures
        first_index(a + seq![c] + b, c) == a.len(),
{
    let s = a + seq![c] + b;
    lemma_first_index(s, c);
    assert(s[a.len() as int] == c);
    let at = first_index(s, c) as int;
    if at < a.len() {
        assert(s[at] == a[at]);
    }
}

/// Texts are ordered by the first character in which they differ, and a text
/// comes before those that begin with it.
pub proof fn the_first_difference_orders_texts(
    common: Seq<char>,
    c: char,
    d: char,
    a: Seq<char>,
    b: Seq<char>,
)
    ensures
        c < d ==> text_less(common + seq![c] + a, common + seq![d] + b),
        c > d ==> !text_less(common + seq![c] + a, common + seq![d] + b),
        text_less(common, common + seq![d] + b),
        !text_less(common + seq![c] + a, common),
        !text_less(common, common),
    decreases common.len(),
{
    let left = common + seq![c] + a;
    let right = common + seq![d] + b;
    if common.len() > 0 {
        the_first_difference_orders_texts(common.drop_first(), c, d, a, b);
        assert(left.drop_first() =~= common.drop_first() + seq![c] + a);
        assert(right.drop_first() =~= common.drop_first() + seq![d] + b);
        assert(left[0] == common[0] && right[0] == common[0]);
    } else {
        assert(left[0] == c && right[0] == d);
    }
}

/// A text begins with a prefix exactly where it is the prefix and a rest, and
/// ends with a suffix likewise.
pub proof fn prefixes_and_suffixes_come_off(s: Seq<char>, part: Seq<char>)
    ensures
        starts_with(part + s, part),
        after_prefix(part + s, part) == s,
        ends_with(s + part, part),
        starts_with(s, part) ==> s == part + after_prefix(s, part),
        starts_with(s, part) <==> s.len() >= part.len() && forall|i: int|
            0 <= i < part.len() ==> #[trigger] s[i] == part[i],
        ends_with(s, part) ==> s == s.subrange(0, s.len() - part.len()) + part,
{
    assert((part + s).subrange(0, part.len() as int) =~= part);
    assert(after_prefix(part + s, part) =~= s);
    assert((s + part).subrange(s.len() as int, s.len() as int + part.len()) =~= part);
    if starts_with(s, part) {
        assert(s =~= part + after_prefix(s, part));
        assert forall|i: int| 0 <= i < part.len() implies #[trigger] s[i] == part[i] by {
            assert(s.subrange(0, part.len() as int)[i] == part[i]);
        }
    }
    if s.len() >= part.len() && forall|i: int| 0 <= i < part.len() ==> #[trigger] s[i] == part[i] {
        assert(s.subrange(0, part.len() as int) =~= part);
    }
    if ends_with(s, part) {
        assert(s =~= s.subrange(0, s.len() - part.len()) + part);
    }
}

/// What counts as white space: the blanks and line ends of every script, and
/// no character that is seen, nor one that merely has no width.
pub proof fn blanks_and_line_ends_are_white_space(c: char)
    ensures
        is_space(' ') && is_space('\t') && is_space('\n') && is_space('\r'),
        is_space('\u{b}') && is_space('\u{c}') && is_space('\u{85}') && is_space('\u{a0}'),
        is_space('\u{1680}') && is_space('\u{2000}') && is_space('\u{200a}'),
        is_space('\u{2028}') && is_space('\u{2029}') && is_space('\u{202f}'),
        is_space('\u{205f}') && is_space('\u{3000}'),
        !is_space('\u{200b}') && !is_space('\u{feff}') && !is_space('\0'),
        0x21 <= c as u32 <= 0x7e ==> !is_space(c),
        0xa1 <= c as u32 <= 0x167f ==> !is_space(c),
        c as u32 > 0x3000 ==> !is_space(c),
{
}

/// A text takes as many bytes as its parts, and what follows the bytes of a
/// part is the other part.
pub proof fn bytes_are_counted_by_the_character(a: Seq<char>, b: Seq<char>)
    ensures
        byte_length(a + b) == byte_length(a) + byte_length(b),
        after_bytes(a + b, byte_length(a)) == Some(b),
        (forall|i: int| 0 <= i < a.len() ==> (#[trigger] a[i] as u32) < 0x80) ==> byte_length(a)
            == a.len(),
    decreases a.len(),
{
    lemma_byte_length_concat(a, b);
    if a.len() == 0 {
        assert(a + b =~= b);
    } else {
        let rest = a.drop_first();
        let first = seq![a[0]];
        bytes_are_counted_by_the_character(rest, b);
        lemma_byte_length_concat(first, rest);
        assert(first + rest =~= a);
        assert(first.drop_last() =~= Seq::<char>::empty());
        assert(byte_length(first.drop_last()) == 0);
        assert(byte_length(first) == utf8_width(a[0]));
        assert((a + b)[0] == a[0]);
        assert((a + b).drop_first() =~= rest + b);
        assert(utf8_width(a[0]) > 0);
        if forall|i: int| 0 <= i < a.len() ==> (#[trigger] a[i] as u32) < 0x80 {
            assert forall|i: int| 0 <= i < rest.len() implies (#[trigger] rest[i] as u32) < 0x80 by {
                assert(rest[i] == a[i + 1]);
            }
        }
    }
}

proof fn lemma_byte_length_concat(a: Seq<char>, b: Seq<char>)
    ensures
        byte_length(a + b) == byte_length(a) + byte_length(b),
    decreases b.len(),
{
    if b.len() == 0 {
        assert(a + b =~= a);
    } else {
        lemma_byte_length_concat(a, b.drop_last());
        assert((a + b).drop_last() =~= a + b.drop_last());
        assert((a + b).last() == b.last());
    }
}

/// A separator ends a piece, and what follows without another is the last one.
pub proof fn a_separator_ends_a_piece(a: Seq<char>, b: Seq<char>, c: char)
    requires
        !contains_char(b, c),
    ensures
        split(a + seq![c] + b, c) == split(a, c).push(b),
        split(b, c) == seq![b],
{
    let empty = Seq::<char>::empty();
    let separated = a + seq![c];
    assert(separated.drop_last() =~= a);
    assert(separated.last() == c);
    lemma_split_extend(separated, b, c);
    let pieces = split(a, c);
    assert(split(separated, c) == pieces.push(empty));
    assert(pieces.push(empty).drop_last() =~= pieces);
    assert(empty + b =~= b);
    lemma_split_extend(empty, b, c);
    assert(split(empty, c).drop_last().push(b) =~= seq![b]);
}

/// The first place where a text occurs is found: it occurs there and at no
/// place before.
pub proof fn the_first_occurrence_is_found(s: Seq<char>, needle: Seq<char>, from: int, at: int)
    requires
        0 <= from <= at,
        occurs_at(s, needle, at),
        forall|k: int| from <= k < at ==> !#[trigger] occurs_at(s, needle, k),
    ensures
        find_from(s, needle, from) == Some(at),
    decreases at - from,
{
    if from < at {
        the_first_occurrence_is_found(s, needle, from + 1, at);
    }
}

/// Digits come highest first: a digit behind a number makes it ten times, or
/// sixteen times, as large and adds its value.
pub proof fn digits_come_highest_first(n: nat, d: nat)
    requires
        n > 0,
    ensures
        d < 10 ==> decimal(10 * n + d) == decimal(n).push("0123456789"@[d as int]),
        d < 16 ==> hexadecimal(16 * n + d) == hexadecimal(n).push("0123456789abcdef"@[d as int]),
        d < 10 ==> decimal(d) == seq!["0123456789"@[d as int]],
        d < 16 ==> hexadecimal(d) == seq!["0123456789abcdef"@[d as int]],
{
    reveal_strlit("0123456789");
    reveal_strlit("0123456789abcdef");
    if d < 10 {
        assert((10 * n + d) / 10 == n);
        assert((10 * n + d) % 10 == d);
    }
    if d < 16 {
        assert((16 * n + d) / 16 == n);
        assert((16 * n + d) % 16 == d);
    }
}

/// The UTF-8 encoding takes one to four bytes, more for later characters.
pub proof fn later_characters_take_more_bytes(c: char)
    ensures
        (c as u32) < 0x80 ==> utf8_width(c) == 1,
        0x80 <= c as u32 <= 0x7ff ==> utf8_width(c) == 2,
        0x800 <= c as u32 <= 0xffff ==> utf8_width(c) == 3,
        0x1_0000 <= c as u32 ==> utf8_width(c) == 4,
{
}

/// Words of fixed width keep their leading zeros, and a text that is too short
/// is followed by spaces.
pub proof fn columns_are_filled(n: nat, d: nat, width: nat, s: Seq<char>, i: int)
    requires
        d < 16,
    ensures
        fixed_hex(16 * n + d, width + 1) == fixed_hex(n, width).push("0123456789abcdef"@[d as int]),
        fixed_hex(n, width).len() == width,
        padded(s, width).len() == (if s.len() >= width { s.len() } else { width }),
        padded(s, width).subrange(0, s.len() as int) == s,
        s.len() <= i < width ==> padded(s, width)[i] == ' ',
    decreases width,
{
    reveal_strlit("0123456789abcdef");
    assert((16 * n + d) / 16 == n);
    assert((16 * n + d) % 16 == d);
    if width > 0 {
        columns_are_filled(n / 16, n % 16, (width - 1) as nat, s, i);
    }
    assert(padded(s, width).subrange(0, s.len() as int) =~= s);
}

} // verus!
