//! Text primitives shared by every part of the crate.
//!
//! A text is modelled by the sequence of its characters.

use vstd::prelude::*;
use vstd::string::*;

verus! {

/// `String::push` appends one character.
pub assume_specification[ String::push ](s: &mut String, c: char)
    ensures
        final(s)@ == old(s)@.push(c),
;

/// Equality of `str` compares the two texts character by character.
pub assume_specification[ <str as PartialEq>::eq ](a: &str, b: &str) -> (res: bool)
    ensures
        res == (a@ == b@),
;

/// Whether `c` has the Unicode property `White_Space`.
pub open spec fn white_space(c: char) -> bool {
    ||| '\u{9}' <= c <= '\u{d}'
    ||| c == ' '
    ||| c == '\u{85}'
    ||| c == '\u{a0}'
    ||| c == '\u{1680}'
    ||| '\u{2000}' <= c <= '\u{200a}'
    ||| c == '\u{2028}'
    ||| c == '\u{2029}'
    ||| c == '\u{202f}'
    ||| c == '\u{205f}'
    ||| c == '\u{3000}'
}

/// `char::is_whitespace` tells whether a character has the Unicode property `White_Space`,
/// which the listed characters have and no others.
pub assume_specification[ char::is_whitespace ](c: char) -> (res: bool)
    ensures
        res == white_space(c),
;

/// The lowercase equivalent of a text, by the Unicode property `Lowercase`.
pub uninterp spec fn lowercase(s: Seq<char>) -> Seq<char>;

/// The lowercase equivalent of an ASCII character.
pub open spec fn ascii_lowercase(c: char) -> char {
    if 'A' <= c <= 'Z' {
        (c as u32 + 32) as char
    } else {
        c
    }
}

/// Whether every character of a text is ASCII.
pub open spec fn is_ascii_text(s: Seq<char>) -> bool {
    forall|i: int| 0 <= i < s.len() ==> (#[trigger] s[i]) as u32 <= 127
}

/// `str::to_lowercase`: the result depends on the text alone, and of an ASCII text every
/// letter is replaced by its lowercase equivalent.
pub assume_specification[ str::to_lowercase ](s: &str) -> (res: String)
    ensures
        res@ == lowercase(s@),
        is_ascii_text(s@) ==> res@ == s@.map_values(|c: char| ascii_lowercase(c)),
;

/// Whether two texts are the same.
pub fn same(a: &str, b: &str) -> (res: bool)
    ensures
        res == (a@ == b@),
{
    *a == *b
}

/// The characters of `s`, one by one.
pub fn to_chars(s: &str) -> (res: Vec<char>)
    ensures
        res@ == s@,
{
    let mut res: Vec<char> = Vec::new();
    for c in it: s.chars()
        invariant
            it.seq() == s@,
            res@ == s@.take(it.index()),
    {
        res.push(c);
        proof {
            assert(s@.take(it.index() + 1) =~= s@.take(it.index()).push(c));
        }
    }
    proof {
        assert(s@.take(s@.len() as int) =~= s@);
    }
    res
}

/// The text made of the characters from `from` up to, not with, `to`.
pub fn from_chars(chars: &Vec<char>, from: usize, to: usize) -> (res: String)
    requires
        from <= to <= chars@.len(),
    ensures
        res@ == chars@.subrange(from as int, to as int),
{
    let mut res: String = String::new();
    let mut i: usize = from;
    while i < to
        invariant
            from <= i <= to <= chars@.len(),
            res@ == chars@.subrange(from as int, i as int),
        decreases to - i,
    {
        res.push(chars[i]);
        proof {
            assert(chars@.subrange(from as int, i + 1) =~= chars@.subrange(
                from as int,
                i as int,
            ).push(chars@[i as int]));
        }
        i += 1;
    }
    res
}

/// The first `max` characters of `s`, or all of them where there are fewer.
pub open spec fn prefix(s: Seq<char>, max: nat) -> Seq<char> {
    if s.len() <= max {
        s
    } else {
        s.take(max as int)
    }
}

/// The first `max` characters of a text.
pub fn take_chars(s: &str, max: usize) -> (res: String)
    ensures
        res@ == prefix(s@, max as nat),
{
    let chars: Vec<char> = to_chars(s);
    let end: usize = if chars.len() <= max {
        chars.len()
    } else {
        max
    };
    proof {
        assert(chars@.subrange(0, chars@.len() as int) =~= chars@);
    }
    from_chars(&chars, 0, end)
}

/// The number of characters of a text.
pub fn char_count(s: &str) -> (res: usize)
    ensures
        res == s@.len(),
{
    to_chars(s).len()
}

/// Whether `s` begins with `p`.
pub open spec fn begins_with(s: Seq<char>, p: Seq<char>) -> bool {
    p.len() <= s.len() && s.take(p.len() as int) == p
}

/// Whether `p` stands in `s` at the place `at`.
pub open spec fn stands_at(s: Seq<char>, p: Seq<char>, at: int) -> bool {
    0 <= at && at + p.len() <= s.len() && s.subrange(at, at + p.len()) == p
}

/// Whether `s` ends with `p`.
pub open spec fn ends_with(s: Seq<char>, p: Seq<char>) -> bool {
    p.len() <= s.len() && s.skip(s.len() - p.len()) == p
}

/// Whether a text consists of printable ASCII characters other than quotes and backslashes.
pub open spec fn is_plain(s: Seq<char>) -> bool {
    forall|i: int|
        0 <= i < s.len() ==> ' ' <= #[trigger] s[i] <= '~' && s[i] != '"' && s[i] != '\\'
}

/// Whether the characters of `s` from `at` on begin with those of `p`.
fn matches_at(s: &Vec<char>, at: usize, p: &Vec<char>) -> (res: bool)
    requires
        at <= s@.len(),
    ensures
        res == begins_with(s@.skip(at as int), p@),
{
    let ghost rest = s@.skip(at as int);
    if s.len() - at < p.len() {
        return false;
    }
    let mut i: usize = 0;
    while i < p.len()
        invariant
            at <= s.len(),
            p.len() <= s.len() - at,
            i <= p@.len(),
            rest == s@.skip(at as int),
            forall|j: int| 0 <= j < i ==> rest[j] == p@[j],
        decreases p@.len() - i,
    {
        if s[at + i] != p[i] {
            proof {
                assert(rest[i as int] != p@[i as int]);
                assert(rest.take(p@.len() as int)[i as int] == rest[i as int]);
            }
            return false;
        }
        i += 1;
    }
    proof {
        assert(rest.take(p@.len() as int) =~= p@);
    }
    true
}

/// Whether a text begins with another.
pub fn starts_with(s: &str, p: &str) -> (res: bool)
    ensures
        res == begins_with(s@, p@),
{
    let chars: Vec<char> = to_chars(s);
    let pattern: Vec<char> = to_chars(p);
    proof {
        assert(chars@.skip(0) =~= s@);
    }
    matches_at(&chars, 0, &pattern)
}

/// Whether `p` occurs somewhere in `s`.
pub open spec fn occurs_in(p: Seq<char>, s: Seq<char>) -> bool {
    exists|i: int| 0 <= i <= s.len() && #[trigger] begins_with(s.skip(i), p)
}

/// Whether one text holds another.
pub fn contains(s: &str, p: &str) -> (res: bool)
    ensures
        res == occurs_in(p@, s@),
{
    let chars: Vec<char> = to_chars(s);
    let pattern: Vec<char> = to_chars(p);
    let mut i: usize = 0;
    loop
        invariant
            chars@ == s@,
            pattern@ == p@,
            i <= chars@.len(),
            forall|j: int| 0 <= j < i ==> !(#[trigger] begins_with(s@.skip(j), p@)),
        decreases chars@.len() - i,
    {
        if matches_at(&chars, i, &pattern) {
            return true;
        }
        if i == chars.len() {
            return false;
        }
        i += 1;
    }
}

/// `s` without its leading white space.
pub open spec fn trimmed_start(s: Seq<char>) -> Seq<char>
    decreases s.len(),
{
    if s.len() > 0 && white_space(s[0]) {
        trimmed_start(s.drop_first())
    } else {
        s
    }
}

/// `s` without its trailing white space.
pub open spec fn trimmed_end(s: Seq<char>) -> Seq<char>
    decreases s.len(),
{
    if s.len() > 0 && white_space(s.last()) {
        trimmed_end(s.drop_last())
    } else {
        s
    }
}

/// `s` without its leading and trailing white space.
pub open spec fn trimmed(s: Seq<char>) -> Seq<char> {
    trimmed_end(trimmed_start(s))
}

/// What is left without leading white space does not begin with any.
pub proof fn lemma_trimmed_start(s: Seq<char>)
    ensures
        trimmed_start(s).len() > 0 ==> !white_space(trimmed_start(s)[0]),
    decreases s.len(),
{
    if s.len() > 0 && white_space(s[0]) {
        lemma_trimmed_start(s.drop_first());
    }
}

/// What is left without trailing white space does not end with any, and begins as before.
pub proof fn lemma_trimmed_end(s: Seq<char>)
    ensures
        trimmed_end(s).len() > 0 ==> !white_space(trimmed_end(s).last()) && trimmed_end(s)[0]
            == s[0],
    decreases s.len(),
{
    if s.len() > 0 && white_space(s.last()) {
        lemma_trimmed_end(s.drop_last());
    }
}

/// A text without its leading and trailing white space.
pub fn trim(s: &str) -> (res: String)
    ensures
        res@ == trimmed(s@),
{
    let chars: Vec<char> = to_chars(s);
    let mut from: usize = 0;
    proof {
        assert(chars@.skip(0) =~= s@);
    }
    while from < chars.len() && chars[from].is_whitespace()
        invariant
            chars@ == s@,
            from <= chars@.len(),
            trimmed_start(chars@.skip(from as int)) == trimmed_start(s@),
        decreases chars@.len() - from,
    {
        proof {
            assert(chars@.skip(from as int).drop_first() =~= chars@.skip(from + 1));
        }
        from += 1;
    }
    let ghost rest = chars@.skip(from as int);
    let mut to: usize = chars.len();
    proof {
        assert(trimmed_start(rest) == rest);
        assert(chars@.subrange(from as int, to as int) =~= rest);
    }
    while from < to && chars[to - 1].is_whitespace()
        invariant
            from <= to <= chars@.len(),
            trimmed_end(chars@.subrange(from as int, to as int)) == trimmed_end(rest),
        decreases to,
    {
        proof {
            assert(chars@.subrange(from as int, to as int).drop_last() =~= chars@.subrange(
                from as int,
                to - 1,
            ));
        }
        to -= 1;
    }
    from_chars(&chars, from, to)
}

/// Whether a text holds nothing but white space.
pub fn is_blank(s: &str) -> (res: bool)
    ensures
        res == (trimmed(s@).len() == 0),
{
    trim(s).as_str().is_empty()
}

/// The pieces of `s` between the occurrences of `sep`: one more than there are
/// occurrences.
pub open spec fn split(s: Seq<char>, sep: char) -> Seq<Seq<char>>
    decreases s.len(),
{
    if s.len() == 0 {
        seq![Seq::<char>::empty()]
    } else {
        let before = split(s.drop_last(), sep);
        if s.last() == sep {
            before.push(Seq::<char>::empty())
        } else {
            before.drop_last().push(before.last().push(s.last()))
        }
    }
}

/// The characters of each of several texts.
pub open spec fn views(parts: Seq<String>) -> Seq<Seq<char>> {
    parts.map_values(|p: String| p@)
}

/// The pieces of a text between the occurrences of one character.
pub fn split_on(s: &str, sep: char) -> (res: Vec<String>)
    ensures
        views(res@) == split(s@, sep),
        res@.len() > 0,
{
    let chars: Vec<char> = to_chars(s);
    let mut done: Vec<String> = Vec::new();
    let mut current: String = String::new();
    let mut i: usize = 0;
    proof {
        assert(s@.take(0) =~= Seq::<char>::empty());
        assert(views(done@).push(current@) =~= split(s@.take(0), sep));
    }
    while i < chars.len()
        invariant
            chars@ == s@,
            i <= chars@.len(),
            views(done@).push(current@) == split(s@.take(i as int), sep),
        decreases chars@.len() - i,
    {
        let c: char = chars[i];
        let ghost before = views(done@).push(current@);
        proof {
            assert(s@.take(i + 1).drop_last() =~= s@.take(i as int));
            assert(s@.take(i + 1).last() == c);
            assert(before.drop_last() =~= views(done@));
            assert(before.last() == current@);
        }
        if c == sep {
            let ghost parts = done@;
            let ghost last = current@;
            done.push(current);
            current = String::new();
            proof {
                assert(views(done@) =~= views(parts).push(last));
            }
        } else {
            current.push(c);
        }
        i += 1;
    }
    proof {
        assert(s@.take(s@.len() as int) =~= s@);
    }
    let ghost parts = done@;
    let ghost last = current@;
    done.push(current);
    proof {
        assert(views(done@) =~= views(parts).push(last));
    }
    done
}

/// The texts of `parts` one after the other, with `sep` between them.
pub open spec fn joined(parts: Seq<Seq<char>>, sep: Seq<char>) -> Seq<char>
    decreases parts.len(),
{
    if parts.len() == 0 {
        Seq::<char>::empty()
    } else if parts.len() == 1 {
        parts[0]
    } else {
        joined(parts.drop_last(), sep) + sep + parts.last()
    }
}

/// Several texts one after the other, with a separator between them.
pub fn join(parts: &Vec<String>, sep: &str) -> (res: String)
    ensures
        res@ == joined(views(parts@), sep@),
{
    let mut res: String = String::new();
    let mut i: usize = 0;
    proof {
        assert(views(parts@).take(0).len() == 0);
    }
    while i < parts.len()
        invariant
            i <= parts@.len(),
            res@ == joined(views(parts@).take(i as int), sep@),
        decreases parts@.len() - i,
    {
        proof {
            let so_far = views(parts@).take(i + 1);
            assert(so_far.drop_last() =~= views(parts@).take(i as int));
            assert(so_far.last() == parts@[i as int]@);
        }
        if i > 0 {
            res.append(sep);
        }
        proof {
            if i == 0 {
                assert(res@ + parts@[0]@ =~= parts@[0]@);
            }
        }
        res.append(parts[i].as_str());
        i += 1;
    }
    proof {
        assert(views(parts@).take(parts@.len() as int) =~= views(parts@));
    }
    res
}

/// Whether the character of `s` at `i` is the first of a word.
pub open spec fn begins_word(s: Seq<char>, i: int) -> bool {
    !white_space(s[i]) && (i == 0 || white_space(s[i - 1]))
}

/// The number of maximal runs of characters that are no white space.
pub open spec fn words(s: Seq<char>) -> nat
    decreases s.len(),
{
    if s.len() == 0 {
        0
    } else {
        words(s.drop_last()) + if begins_word(s, s.len() - 1) {
            1nat
        } else {
            0nat
        }
    }
}

/// The number of words of a text.
pub fn word_count(s: &str) -> (res: usize)
    ensures
        res == words(s@),
        res <= s@.len(),
{
    let chars: Vec<char> = to_chars(s);
    let mut count: usize = 0;
    let mut after_space: bool = true;
    let mut i: usize = 0;
    while i < chars.len()
        invariant
            chars@ == s@,
            i <= chars@.len(),
            count <= i,
            count == words(s@.take(i as int)),
            after_space == (i == 0 || white_space(s@[i - 1])),
        decreases chars@.len() - i,
    {
        let space: bool = chars[i].is_whitespace();
        proof {
            let so_far = s@.take(i + 1);
            assert(so_far.drop_last() =~= s@.take(i as int));
            assert(so_far.last() == s@[i as int]);
        }
        if !space && after_space {
            count += 1;
        }
        after_space = space;
        i += 1;
    }
    proof {
        assert(s@.take(s@.len() as int) =~= s@);
    }
    count
}

/// The decimal digit for a number below ten.
pub open spec fn digit(n: int) -> char {
    if n == 0 {
        '0'
    } else if n == 1 {
        '1'
    } else if n == 2 {
        '2'
    } else if n == 3 {
        '3'
    } else if n == 4 {
        '4'
    } else if n == 5 {
        '5'
    } else if n == 6 {
        '6'
    } else if n == 7 {
        '7'
    } else if n == 8 {
        '8'
    } else {
        '9'
    }
}

/// A natural number in decimal notation, without leading zeros.
pub open spec fn decimal_nat(n: nat) -> Seq<char>
    decreases n,
{
    if n < 10 {
        seq![digit(n as int)]
    } else {
        decimal_nat(n / 10).push(digit((n % 10) as int))
    }
}

/// A number in decimal notation consists of digits.
pub proof fn lemma_decimal_digits(n: nat)
    ensures
        forall|i: int|
            0 <= i < decimal_nat(n).len() ==> '0' <= #[trigger] decimal_nat(n)[i]
                <= '9',
    decreases n,
{
    if n >= 10 {
        lemma_decimal_digits(n / 10);
        let head = decimal_nat(n / 10);
        let all = decimal_nat(n);
        assert forall|i: int| 0 <= i < all.len() implies '0' <= #[trigger] all[i] <= '9' by {
            if i < head.len() {
                assert(all[i] == head[i]);
            }
        }
    }
}

/// A number in decimal notation, with a leading minus where it is negative.
pub open spec fn decimal(n: int) -> Seq<char> {
    if n < 0 {
        seq!['-'] + decimal_nat((-n) as nat)
    } else {
        decimal_nat(n as nat)
    }
}

/// The decimal digit for a number below ten.
pub fn digit_char(n: u128) -> (res: char)
    requires
        n < 10,
    ensures
        res == digit(n as int),
{
    if n == 0 {
        '0'
    } else if n == 1 {
        '1'
    } else if n == 2 {
        '2'
    } else if n == 3 {
        '3'
    } else if n == 4 {
        '4'
    } else if n == 5 {
        '5'
    } else if n == 6 {
        '6'
    } else if n == 7 {
        '7'
    } else if n == 8 {
        '8'
    } else {
        '9'
    }
}

/// A natural number in decimal notation.
pub fn unsigned_to_text(n: u128) -> (res: String)
    ensures
        res@ == decimal_nat(n as nat),
    decreases n,
{
    if n < 10 {
        let mut res: String = String::new();
        res.push(digit_char(n));
        proof {
            assert(res@ =~= seq![digit(n as int)]);
        }
        res
    } else {
        let mut res: String = unsigned_to_text(n / 10);
        res.push(digit_char(n % 10));
        res
    }
}

/// A number in decimal notation.
pub fn number_to_text(n: i64) -> (res: String)
    ensures
        res@ == decimal(n as int),
{
    if n < 0 {
        let mut res: String = String::new();
        res.push('-');
        res.append(unsigned_to_text((-(n as i128)) as u128).as_str());
        proof {
            assert(res@ =~= seq!['-'] + decimal_nat((-n) as nat));
        }
        res
    } else {
        unsigned_to_text(n as u128)
    }
}

/// An optional text, or the empty one.
pub open spec fn or_empty(s: Option<Seq<char>>) -> Seq<char> {
    match s {
        Some(s) => s,
        None => Seq::<char>::empty(),
    }
}

/// The characters of an optional text.
pub open spec fn view_opt(s: Option<String>) -> Option<Seq<char>> {
    match s {
        Some(s) => Some(s@),
        None => None,
    }
}

/// A copy of an optional text.
pub fn clone_opt(s: &Option<String>) -> (res: Option<String>)
    ensures
        res == *s,
{
    match s {
        Some(text) => Some(text.clone()),
        None => None,
    }
}

/// The characters whose bytes stand in a text from `start` up to, not with, `end`.
pub open spec fn cut(s: Seq<char>, start: int, end: int) -> Seq<char> {
    vstd::utf8::decode_utf8(vstd::utf8::encode_utf8(s).subrange(start, end))
}

/// Whether a character of a text begins at the byte `at`, or the text ends there.
pub open spec fn is_boundary(s: Seq<char>, at: int) -> bool {
    vstd::utf8::is_char_boundary(vstd::utf8::encode_utf8(s), at)
}

/// The part of a text between two of its bytes has just the bytes between them.
pub proof fn lemma_cut_bytes(s: Seq<char>, start: int, end: int)
    requires
        0 <= start <= end <= vstd::utf8::encode_utf8(s).len(),
        is_boundary(s, start),
        is_boundary(s, end),
    ensures
        vstd::utf8::encode_utf8(cut(s, start, end)) == vstd::utf8::encode_utf8(s).subrange(
            start,
            end,
        ),
{
    let bytes = vstd::utf8::encode_utf8(s);
    vstd::utf8::encode_utf8_valid_utf8(s);
    vstd::utf8::valid_utf8_split(bytes, end);
    let head = bytes.subrange(0, end);
    if start < end {
        vstd::utf8::is_char_boundary_iff_not_is_continuation_byte(bytes, start);
        vstd::utf8::is_char_boundary_iff_not_is_continuation_byte(head, start);
        assert(head[start] == bytes[start]);
    } else {
        vstd::utf8::is_char_boundary_start_end_of_seq(head);
    }
    vstd::utf8::valid_utf8_split(head, start);
    assert(head.subrange(start, head.len() as int) =~= bytes.subrange(start, end));
    vstd::utf8::decode_utf8_encode_utf8(bytes.subrange(start, end));
}

/// The part of a text between two of its bytes.
pub fn slice(s: &str, start: usize, end: usize) -> (res: String)
    requires
        start <= end <= vstd::utf8::encode_utf8(s@).len(),
        is_boundary(s@, start as int),
        is_boundary(s@, end as int),
    ensures
        res@ == cut(s@, start as int, end as int),
{
    let ghost bytes = vstd::utf8::encode_utf8(s@);
    proof {
        vstd::utf8::encode_utf8_valid_utf8(s@);
        vstd::utf8::valid_utf8_split(bytes, end as int);
        let head = bytes.subrange(0, end as int);
        if start < end {
            vstd::utf8::is_char_boundary_iff_not_is_continuation_byte(bytes, start as int);
            vstd::utf8::is_char_boundary_iff_not_is_continuation_byte(head, start as int);
            assert(head[start as int] == bytes[start as int]);
        } else {
            vstd::utf8::is_char_boundary_start_end_of_seq(head);
        }
    }
    let (head, _) = s.split_at(end);
    let (_, part) = head.split_at(start);
    proof {
        assert(part.spec_bytes() =~= bytes.subrange(start as int, end as int));
        vstd::utf8::encode_utf8_decode_utf8(part@);
    }
    part.to_string()
}

/// What stands before the last occurrence of a character, where there is one.
pub open spec fn before_last(s: Seq<char>, c: char) -> Option<Seq<char>>
    decreases s.len(),
{
    if s.len() == 0 {
        None
    } else if s.last() == c {
        Some(s.drop_last())
    } else {
        before_last(s.drop_last(), c)
    }
}

/// What stands before the last occurrence of a character in a text, where there is one.
pub fn until_last(s: &str, c: char) -> (res: Option<String>)
    ensures
        view_opt(res) == before_last(s@, c),
{
    let chars: Vec<char> = to_chars(s);
    let mut end: usize = chars.len();
    proof {
        assert(s@.take(end as int) =~= s@);
    }
    while end > 0
        invariant
            chars@ == s@,
            end <= chars@.len(),
            before_last(s@, c) == before_last(s@.take(end as int), c),
        decreases end,
    {
        proof {
            assert(s@.take(end as int).drop_last() =~= s@.take(end - 1));
            assert(s@.take(end - 1) =~= s@.subrange(0, end - 1));
        }
        if chars[end - 1] == c {
            return Some(from_chars(&chars, 0, end - 1));
        }
        end -= 1;
    }
    None
}

/// A text without the occurrences of a character at its end.
pub open spec fn without_trailing(s: Seq<char>, c: char) -> Seq<char>
    decreases s.len(),
{
    if s.len() > 0 && s.last() == c {
        without_trailing(s.drop_last(), c)
    } else {
        s
    }
}

/// A text without the occurrences of a character at its end.
pub fn strip_trailing(s: &str, c: char) -> (res: String)
    ensures
        res@ == without_trailing(s@, c),
{
    let chars: Vec<char> = to_chars(s);
    let mut end: usize = chars.len();
    proof {
        assert(s@.take(end as int) =~= s@);
    }
    while end > 0 && chars[end - 1] == c
        invariant
            chars@ == s@,
            end <= chars@.len(),
            without_trailing(s@, c) == without_trailing(s@.take(end as int), c),
        decreases end,
    {
        proof {
            assert(s@.take(end as int).drop_last() =~= s@.take(end - 1));
        }
        end -= 1;
    }
    proof {
        assert(s@.take(end as int) =~= s@.subrange(0, end as int));
    }
    from_chars(&chars, 0, end)
}

/// A text without any number of repetitions of another at its start.
pub open spec fn without_leading(s: Seq<char>, p: Seq<char>) -> Seq<char>
    decreases s.len(),
{
    if p.len() > 0 && begins_with(s, p) {
        without_leading(s.skip(p.len() as int), p)
    } else {
        s
    }
}

/// A text without any number of repetitions of another at its start.
pub fn strip_leading(s: &str, p: &str) -> (res: String)
    ensures
        res@ == without_leading(s@, p@),
{
    let chars: Vec<char> = to_chars(s);
    let pattern: Vec<char> = to_chars(p);
    let mut start: usize = 0;
    proof {
        assert(s@.skip(0) =~= s@);
    }
    while pattern.len() > 0 && matches_at(&chars, start, &pattern)
        invariant
            chars@ == s@,
            pattern@ == p@,
            start <= chars.len(),
            without_leading(s@, p@) == without_leading(s@.skip(start as int), p@),
        decreases chars@.len() - start,
    {
        proof {
            assert(pattern.len() <= chars.len() - start);
            assert(s@.skip(start as int).skip(p@.len() as int) =~= s@.skip(start + p@.len()));
        }
        start += pattern.len();
    }
    let end: usize = chars.len();
    proof {
        assert(s@.skip(start as int) =~= s@.subrange(start as int, end as int));
    }
    from_chars(&chars, start, end)
}

/// Joining the pieces of a text gives the text back.
pub proof fn lemma_joined_split(s: Seq<char>, c: char)
    ensures
        split(s, c).len() > 0,
        joined(split(s, c), seq![c]) == s,
    decreases s.len(),
{
    if s.len() > 0 {
        let before = split(s.drop_last(), c);
        let parts = split(s, c);
        lemma_joined_split(s.drop_last(), c);
        assert(s.drop_last().push(s.last()) =~= s);
        if s.last() == c {
            assert(parts.drop_last() =~= before);
            assert(joined(parts, seq![c]) =~= s);
        } else {
            assert(parts.drop_last() =~= before.drop_last());
            assert(joined(parts, seq![c]) =~= s);
        }
    }
}

/// What stands before the last separator has all pieces of a text but the last.
pub proof fn lemma_before_last(s: Seq<char>, c: char)
    ensures
        match before_last(s, c) {
            Some(base) => split(s, c).len() > 1 && split(base, c) == split(s, c).drop_last(),
            None => split(s, c).len() == 1,
        },
    decreases s.len(),
{
    if s.len() > 0 {
        let before = split(s.drop_last(), c);
        lemma_joined_split(s.drop_last(), c);
        if s.last() == c {
            assert(split(s, c).drop_last() =~= before);
        } else {
            lemma_before_last(s.drop_last(), c);
            assert(split(s, c).drop_last() =~= before.drop_last());
        }
    }
}

/// Texts that are joined begin with the first ones joined, and a separator behind those.
pub proof fn lemma_joined_prefix(parts: Seq<Seq<char>>, n: int, sep: Seq<char>)
    requires
        0 < n < parts.len(),
    ensures
        begins_with(joined(parts, sep), joined(parts.take(n), sep) + sep),
    decreases parts.len(),
{
    let shorter = parts.drop_last();
    let front = joined(parts.take(n), sep) + sep;
    if n == parts.len() - 1 {
        assert(parts.take(n) =~= shorter);
    } else {
        lemma_joined_prefix(shorter, n, sep);
        assert(shorter.take(n) =~= parts.take(n));
        assert(joined(parts, sep).take(front.len() as int) =~= joined(shorter, sep).take(
            front.len() as int,
        ));
    }
    assert(joined(parts, sep).take(front.len() as int) =~= front);
}

/// The first `n` of some texts, or all of them where there are fewer.
pub open spec fn first_parts(parts: Seq<Seq<char>>, n: nat) -> Seq<Seq<char>> {
    if parts.len() <= n {
        parts
    } else {
        parts.take(n as int)
    }
}

/// The first `n` pieces of a text between the occurrences of a character.
pub fn first_pieces(s: &str, c: char, n: usize) -> (res: Vec<String>)
    ensures
        views(res@) == first_parts(split(s@, c), n as nat),
{
    let mut parts: Vec<String> = split_on(s, c);
    let ghost all = parts@;
    if parts.len() > n {
        parts.truncate(n);
        proof {
            assert(views(parts@) =~= views(all).take(n as int));
        }
    }
    parts
}

/// Copies of some texts.
pub fn clone_all(parts: &Vec<String>) -> (res: Vec<String>)
    ensures
        views(res@) == views(parts@),
{
    let mut res: Vec<String> = Vec::new();
    while res.len() < parts.len()
        invariant
            res@.len() <= parts@.len(),
            forall|i: int| 0 <= i < res@.len() ==> (#[trigger] res@[i])@ == parts@[i]@,
        decreases parts@.len() - res@.len(),
    {
        res.push(parts[res.len()].clone());
    }
    proof {
        assert(views(res@) =~= views(parts@));
    }
    res
}

/// The pieces of a text hold no separator, and with one between any two of them they are the text.
pub proof fn pieces_hold_no_separator(s: Seq<char>, c: char)
    ensures
        split(s, c).len() > 0,
        joined(split(s, c), seq![c]) == s,
        forall|i: int, j: int|
            0 <= i < split(s, c).len() && 0 <= j < split(s, c)[i].len() ==> #[trigger] split(
                s,
                c,
            )[i][j] != c,
    decreases s.len(),
{
    lemma_joined_split(s, c);
    if s.len() > 0 {
        let before = split(s.drop_last(), c);
        pieces_hold_no_separator(s.drop_last(), c);
        lemma_joined_split(s.drop_last(), c);
        assert forall|i: int, j: int|
            0 <= i < split(s, c).len() && 0 <= j < split(s, c)[i].len() implies #[trigger] split(
            s,
            c,
        )[i][j] != c by {
            if s.last() != c && i == before.len() - 1 {
                if j < before.last().len() {
                    assert(before[i][j] != c);
                }
            } else if i < before.len() {
                assert(before[i][j] != c);
            }
        }
    }
}

/// Trimming takes white space off both ends of a text, all of it, and nothing else.
pub proof fn trimming_takes_off_white_space_alone(s: Seq<char>) -> (at: int)
    ensures
        0 <= at,
        at + trimmed(s).len() <= s.len(),
        s.subrange(at, at + trimmed(s).len()) == trimmed(s),
        forall|i: int| 0 <= i < at ==> white_space(#[trigger] s[i]),
        forall|i: int| at + trimmed(s).len() <= i < s.len() ==> white_space(#[trigger] s[i]),
        trimmed(s).len() > 0 ==> !white_space(trimmed(s)[0]) && !white_space(trimmed(s).last()),
{
    let start = trimmed_start(s);
    lemma_trimmed_start(s);
    lemma_trimmed_end(start);
    lemma_start_is_a_tail(s);
    lemma_end_is_a_head(start);
    let at = s.len() - start.len();
    assert(s.subrange(at, at + trimmed(s).len()) =~= trimmed(s)) by {
        assert(s.skip(at) == start);
        assert(start.take(trimmed(s).len() as int) == trimmed(s));
    }
    assert forall|i: int| at + trimmed(s).len() <= i < s.len() implies white_space(
        #[trigger] s[i],
    ) by {
        assert(s.skip(at)[i - at] == s[i]);
        assert(white_space(start[i - at]));
    }
    at
}

proof fn lemma_start_is_a_tail(s: Seq<char>)
    ensures
        trimmed_start(s).len() <= s.len(),
        s.skip(s.len() - trimmed_start(s).len()) == trimmed_start(s),
        forall|i: int| 0 <= i < s.len() - trimmed_start(s).len() ==> white_space(#[trigger] s[i]),
    decreases s.len(),
{
    if s.len() > 0 && white_space(s[0]) {
        let rest = s.drop_first();
        lemma_start_is_a_tail(rest);
        assert(s.skip(s.len() - trimmed_start(s).len()) =~= rest.skip(
            rest.len() - trimmed_start(rest).len(),
        ));
        assert forall|i: int| 0 <= i < s.len() - trimmed_start(s).len() implies white_space(
            #[trigger] s[i],
        ) by {
            if i > 0 {
                assert(rest[i - 1] == s[i]);
            }
        }
    } else {
        assert(s.skip(0) =~= s);
    }
}

proof fn lemma_end_is_a_head(s: Seq<char>)
    ensures
        trimmed_end(s).len() <= s.len(),
        s.take(trimmed_end(s).len() as int) == trimmed_end(s),
        forall|i: int| trimmed_end(s).len() <= i < s.len() ==> white_space(#[trigger] s[i]),
    decreases s.len(),
{
    if s.len() > 0 && white_space(s.last()) {
        let rest = s.drop_last();
        lemma_end_is_a_head(rest);
        assert(s.take(trimmed_end(s).len() as int) =~= rest.take(trimmed_end(rest).len() as int));
        assert forall|i: int| trimmed_end(s).len() <= i < s.len() implies white_space(
            #[trigger] s[i],
        ) by {
            if i < rest.len() {
                assert(rest[i] == s[i]);
            }
        }
    } else {
        assert(s.take(s.len() as int) =~= s);
    }
}

/// The number that a text of decimal digits stands for.
pub open spec fn number_read(s: Seq<char>) -> int
    decreases s.len(),
{
    if s.len() == 0 {
        0
    } else {
        10 * number_read(s.drop_last()) + (s.last() as int - '0' as int)
    }
}

/// A number in decimal notation is read back, and has no zero in front.
pub proof fn decimal_is_read_back(n: nat)
    ensures
        number_read(decimal_nat(n)) == n,
        decimal_nat(n).len() > 0,
        n > 0 ==> decimal_nat(n)[0] != '0',
        decimal(n as int) == decimal_nat(n),
        n > 0 ==> decimal(-n) == seq!['-'] + decimal_nat(n),
    decreases n,
{
    if n < 10 {
        assert(decimal_nat(n).drop_last() =~= Seq::<char>::empty());
        assert(number_read(decimal_nat(n).drop_last()) == 0);
    } else {
        decimal_is_read_back(n / 10);
        assert(decimal_nat(n).drop_last() =~= decimal_nat(n / 10));
    }
}

/// A text has no words if and only if it is white space all through, and the words of two texts
/// with white space between them add up.
pub proof fn words_add_up(a: Seq<char>, space: char, b: Seq<char>)
    requires
        white_space(space),
    ensures
        words(a + seq![space] + b) == words(a) + words(b),
        words(a) == 0 <==> forall|i: int| 0 <= i < a.len() ==> white_space(#[trigger] a[i]),
        a.len() > 0 && (forall|i: int| 0 <= i < a.len() ==> !white_space(#[trigger] a[i]))
            ==> words(a) == 1,
    decreases b.len(),
{
    lemma_no_words(a);
    let all = a + seq![space] + b;
    if b.len() == 0 {
        assert(all.drop_last() =~= a);
        assert(words(b) == 0);
    } else {
        let fewer = b.drop_last();
        words_add_up(a, space, fewer);
        assert(all.drop_last() =~= a + seq![space] + fewer);
        assert(all.last() == b.last());
        assert(all[all.len() - 1] == b[b.len() - 1]);
        if b.len() > 1 {
            assert(all[all.len() - 2] == b[b.len() - 2]);
        } else {
            assert(all[all.len() - 2] == space);
        }
    }
}

proof fn lemma_no_words(a: Seq<char>)
    ensures
        words(a) == 0 <==> forall|i: int| 0 <= i < a.len() ==> white_space(#[trigger] a[i]),
        a.len() > 0 && (forall|i: int| 0 <= i < a.len() ==> !white_space(#[trigger] a[i]))
            ==> words(a) == 1,
    decreases a.len(),
{
    if a.len() > 0 {
        let fewer = a.drop_last();
        lemma_no_words(fewer);
        assert(a.last() == a[a.len() - 1]);
        assert forall|i: int| 0 <= i < fewer.len() implies fewer[i] == a[i] by {}
        if words(a) == 0 {
            assert forall|i: int| 0 <= i < a.len() implies white_space(#[trigger] a[i]) by {
                if i < fewer.len() {
                    assert(white_space(fewer[i]));
                } else if fewer.len() > 0 {
                    assert(white_space(fewer[fewer.len() - 1]));
                }
            }
        }
        if forall|i: int| 0 <= i < a.len() ==> white_space(#[trigger] a[i]) {
            assert(white_space(a[a.len() - 1]));
            assert forall|i: int| 0 <= i < fewer.len() implies white_space(
                #[trigger] fewer[i],
            ) by {
                assert(white_space(a[i]));
            }
        }
        if fewer.len() > 0 && (forall|i: int| 0 <= i < a.len() ==> !white_space(#[trigger] a[i])) {
            assert forall|i: int| 0 <= i < fewer.len() implies !white_space(
                #[trigger] fewer[i],
            ) by {
                assert(!white_space(a[i]));
            }
            assert(!white_space(a[a.len() - 2]));
        }
    }
}

/// A text without a character at its end is a start of the text that does not end with it, and
/// only that character stands behind.
pub proof fn stripping_takes_off_one_character_alone(s: Seq<char>, c: char)
    ensures
        without_trailing(s, c).len() <= s.len(),
        s.take(without_trailing(s, c).len() as int) == without_trailing(s, c),
        forall|i: int| without_trailing(s, c).len() <= i < s.len() ==> #[trigger] s[i] == c,
        without_trailing(s, c).len() > 0 ==> without_trailing(s, c).last() != c,
    decreases s.len(),
{
    if s.len() > 0 && s.last() == c {
        let rest = s.drop_last();
        stripping_takes_off_one_character_alone(rest, c);
        let n = without_trailing(s, c).len() as int;
        assert(s.take(n) =~= rest.take(n));
        assert forall|i: int| n <= i < s.len() implies #[trigger] s[i] == c by {
            if i < rest.len() {
                assert(rest[i] == s[i]);
            }
        }
    } else {
        assert(s.take(s.len() as int) =~= s);
    }
}

/// Whether texts are equal is told, their characters are counted and listed, and a text is put
/// together of them again. What a text begins with and what it holds is found at some place.
pub proof fn texts_are_read_character_by_character(
    a: &str,
    b: &str,
    equal: bool,
    count: usize,
    chars: Vec<char>,
    again: String,
    begins: bool,
    holds: bool,
)
    requires
        call_ensures(same, (a, b), equal),
        call_ensures(char_count, (a,), count),
        call_ensures(to_chars, (a,), chars),
        call_ensures(from_chars, (&chars, 0, count), again),
        call_ensures(starts_with, (a, b), begins),
        call_ensures(contains, (a, b), holds),
    ensures
        equal <==> a@ == b@,
        count == a@.len(),
        chars@ == a@,
        again@ == a@,
        begins <==> b@.len() <= a@.len() && forall|i: int| 0 <= i < b@.len() ==> a@[i] == b@[i],
        holds <==> exists|at: int| 0 <= at <= a@.len() && #[trigger] begins_with(a@.skip(at), b@),
        begins ==> holds,
{
    assert(a@.subrange(0, a@.len() as int) =~= a@);
    assert(a@.skip(0) =~= a@);
    if begins {
        assert forall|i: int| 0 <= i < b@.len() implies a@[i] == b@[i] by {
            assert(a@.take(b@.len() as int)[i] == b@[i]);
        }
        assert(begins_with(a@.skip(0), b@));
    }
    if b@.len() <= a@.len() && forall|i: int| 0 <= i < b@.len() ==> a@[i] == b@[i] {
        assert(a@.take(b@.len() as int) =~= b@);
    }
}

/// A text that is cut short is what the text begins with, whole where it is short enough.
pub proof fn shortened_text_is_what_it_begins_with(s: &str, max: usize, res: String)
    requires
        call_ensures(take_chars, (s, max), res),
    ensures
        begins_with(s@, res@),
        s@.len() <= max ==> res@ == s@,
        s@.len() >= max ==> res@.len() == max,
{
    assert(s@.take(s@.len() as int) =~= s@);
}

/// Joining the pieces that a text was split into gives the text back, and no piece holds the
/// separator. The pieces are listed in order, and so are the first of them.
pub proof fn split_text_is_joined_again(
    s: &str,
    c: char,
    parts: Vec<String>,
    sep: &str,
    res: String,
    n: usize,
    first: Vec<String>,
    copies: Vec<String>,
    i: int,
)
    requires
        call_ensures(split_on, (s, c), parts),
        sep@ == seq![c],
        call_ensures(join, (&parts, sep), res),
        call_ensures(first_pieces, (s, c, n), first),
        call_ensures(clone_all, (&parts,), copies),
        0 <= i < parts@.len(),
    ensures
        res@ == s@,
        parts@.len() > 0,
        !parts@[i]@.contains(c),
        copies@.len() == parts@.len() && copies@[i]@ == parts@[i]@,
        first@.len() == parts@.len() || (first@.len() == n && n <= parts@.len()),
        i < first@.len() ==> first@[i]@ == parts@[i]@,
{
    pieces_hold_no_separator(s@, c);
    assert(views(parts@).len() == parts@.len());
    assert(views(parts@)[i] == parts@[i]@);
    assert(views(copies@).len() == copies@.len());
    assert(views(copies@)[i] == copies@[i]@);
    assert(views(first@).len() == first@.len());
    if i < first@.len() {
        assert(views(first@)[i] == first@[i]@);
    }
    assert forall|j: int| 0 <= j < parts@[i]@.len() implies parts@[i]@[j] != c by {
        assert(split(s@, c)[i][j] != c);
    }
}

/// Trimming, stripping and cutting off behind the last occurrence leave a piece of a text, and
/// a text is blank if and only if nothing but white space is in it.
pub proof fn trimmed_text_is_a_piece(
    s: &str,
    c: char,
    kept: String,
    blank: bool,
    stripped: String,
    before: Option<String>,
)
    requires
        call_ensures(trim, (s,), kept),
        call_ensures(is_blank, (s,), blank),
        call_ensures(strip_trailing, (s, c), stripped),
        call_ensures(until_last, (s, c), before),
    ensures
        blank <==> forall|i: int| 0 <= i < s@.len() ==> white_space(#[trigger] s@[i]),
        blank <==> kept@.len() == 0,
        kept@.len() > 0 ==> !white_space(kept@[0]) && !white_space(kept@.last()),
        exists|at: int|
            0 <= at && at + kept@.len() <= s@.len() && #[trigger] s@.subrange(
                at,
                at + kept@.len(),
            ) == kept@,
        begins_with(s@, stripped@),
        forall|i: int| stripped@.len() <= i < s@.len() ==> #[trigger] s@[i] == c,
        stripped@.len() > 0 ==> stripped@.last() != c,
        before is None <==> !s@.contains(c),
        before matches Some(head) ==> begins_with(s@, head@) && head@.len() < s@.len()
            && s@[head@.len() as int] == c && forall|i: int|
            head@.len() < i < s@.len() ==> #[trigger] s@[i] != c,
{
    let at = trimming_takes_off_white_space_alone(s@);
    assert(s@.subrange(at, at + kept@.len()) == kept@);
    if kept@.len() > 0 {
        assert(s@[at] == kept@[0]);
    }
    lemma_without_trailing(s@, c);
    lemma_before_last_is_last(s@, c);
}

proof fn lemma_without_trailing(s: Seq<char>, c: char)
    ensures
        without_trailing(s, c).len() <= s.len(),
        s.take(without_trailing(s, c).len() as int) == without_trailing(s, c),
        forall|i: int| without_trailing(s, c).len() <= i < s.len() ==> #[trigger] s[i] == c,
        without_trailing(s, c).len() > 0 ==> without_trailing(s, c).last() != c,
    decreases s.len(),
{
    assert(s.take(s.len() as int) =~= s);
    if s.len() > 0 && s.last() == c {
        let shorter = s.drop_last();
        lemma_without_trailing(shorter, c);
        let kept = without_trailing(shorter, c);
        assert(s.take(kept.len() as int) =~= shorter.take(kept.len() as int));
        assert forall|i: int| kept.len() <= i < s.len() implies #[trigger] s[i] == c by {
            if i < shorter.len() {
                assert(shorter[i] == c);
            }
        }
    }
}

proof fn lemma_before_last_is_last(s: Seq<char>, c: char)
    ensures
        before_last(s, c) is None <==> !s.contains(c),
        before_last(s, c) matches Some(head) ==> begins_with(s, head) && head.len() < s.len()
            && s[head.len() as int] == c && forall|i: int|
            head.len() < i < s.len() ==> #[trigger] s[i] != c,
    decreases s.len(),
{
    if s.len() > 0 {
        let shorter = s.drop_last();
        if s.last() == c {
            assert(s[s.len() - 1] == c);
            assert(s.take(shorter.len() as int) =~= shorter);
        } else {
            lemma_before_last_is_last(shorter, c);
            if s.contains(c) {
                let i = choose|i: int| 0 <= i < s.len() && s[i] == c;
                assert(shorter[i] == c);
            }
            if let Some(head) = before_last(s, c) {
                assert(s.take(head.len() as int) =~= shorter.take(head.len() as int));
                assert(shorter[head.len() as int] == c);
                assert(s.contains(c)) by {
                    assert(s[head.len() as int] == c);
                }
                assert forall|i: int| head.len() < i < s.len() implies #[trigger] s[i] != c by {
                    if i < shorter.len() {
                        assert(shorter[i] != c);
                    }
                }
            }
        }
    }
}

/// A number is written in decimal notation, with a minus sign where it is negative, and words are
/// counted.
pub proof fn numbers_are_written_to_be_read(
    n: u128,
    plain: String,
    m: i64,
    signed: String,
    s: &str,
    count: usize,
)
    requires
        call_ensures(unsigned_to_text, (n,), plain),
        call_ensures(number_to_text, (m,), signed),
        call_ensures(word_count, (s,), count),
    ensures
        number_read(plain@) == n,
        m >= 0 ==> number_read(signed@) == m,
        m < 0 ==> signed@.len() > 1 && signed@[0] == '-' && number_read(signed@.skip(1)) == -m,
        count == words(s@),
{
    decimal_is_read_back(n as nat);
    reveal_strlit("-");
    if m >= 0 {
        decimal_is_read_back(m as nat);
    } else {
        decimal_is_read_back((-m) as nat);
        lemma_decimal_digits((-m) as nat);
        assert(signed@.skip(1) =~= decimal_nat((-m) as nat));
    }
}

} // verus!
