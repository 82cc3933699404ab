//! Text as sequences of characters: the vocabulary that the other modules'
//! contracts are written in, and the executable functions that compute it.
use vstd::prelude::*;
use vstd::string::*;
use vstd::utf8::*;

verus! {

/// `str`'s `==`, which holds exactly when both strings have the same characters.
pub assume_specification[ <str as PartialEq>::eq ](a: &str, b: &str) -> (res: bool)
    ensures
        res == (a@ == b@),
;

/// `String::push`, which appends one character.
pub assume_specification[ String::push ](s: &mut String, c: char)
    ensures
        final(s)@ == old(s)@.push(c),
;

/// `char::from_u32`, which gives the character of a Unicode scalar value and
/// nothing for any other number.
pub assume_specification[ char::from_u32 ](value: u32) -> (res: Option<char>)
    ensures
        res is Some <==> is_scalar(value),
        res matches Some(c) ==> c as u32 == value,
;

/// What `String::from_utf8_lossy` makes of bytes.
pub uninterp spec fn utf8_lossy(bytes: Seq<u8>) -> Seq<char>;

/// `String::from_utf8_lossy`: bytes that are valid UTF-8 keep their meaning, and
/// invalid ones are replaced. What exactly stands for invalid bytes is left to the
/// name.
#[verifier::external_body]
pub(crate) fn from_utf8_lossy(bytes: &[u8]) -> (res: String)
    ensures
        res@ == utf8_lossy(bytes@),
        valid_utf8(bytes@) ==> res@ == decode_utf8(bytes@),
{
    String::from_utf8_lossy(bytes).into_owned()
}

/// What `String::from_utf8` says of bytes that are not valid UTF-8.
pub uninterp spec fn utf8_complaint(bytes: Seq<u8>) -> Seq<char>;

/// `String::from_utf8` on a copy of the bytes: text exactly when they are valid
/// UTF-8, and then the text that they encode. The words in which the error describes
/// other bytes are left to the name.
#[verifier::external_body]
pub(crate) fn from_utf8(bytes: &[u8]) -> (res: Result<String, String>)
    ensures
        res is Ok <==> valid_utf8(bytes@),
        res matches Ok(s) ==> s@ == decode_utf8(bytes@),
        res matches Err(complaint) ==> complaint@ == utf8_complaint(bytes@),
{
    match String::from_utf8(bytes.to_vec()) {
        Ok(text) => Ok(text),
        Err(err) => Err(err.to_string()),
    }
}

/// What the standard library's `{:?}` writes for a string.
pub uninterp spec fn debug_form(text: Seq<char>) -> Seq<char>;

/// The `Debug` formatting of a string: a function of its characters alone, and
/// which characters it escapes is left to the name.
#[verifier::external_body]
pub(crate) fn debug_text(text: &str) -> (res: String)
    ensures
        res@ == debug_form(text@),
{
    format!("{:?}", text)
}

/// Whether two strings hold the same characters.
pub fn same_text(a: &str, b: &str) -> (res: bool)
    ensures
        res == (a@ == b@),
{
    *a == *b
}

/// The characters of a string.
pub fn to_chars(s: &str) -> (res: Vec<char>)
    ensures
        res@ == s@,
{
    let mut out: Vec<char> = Vec::new();
    for c in it: s.chars()
        invariant
            it.seq() == s@,
            out@ == s@.take(it.index() as int),
    {
        out.push(c);
        assert(s@.take(it.index() + 1) =~= s@.take(it.index() as int).push(c));
    }
    assert(s@.take(s@.len() as int) =~= s@);
    out
}

/// The string of the characters from position `from` up to `to`.
pub fn from_chars(chars: &[char], from: usize, to: usize) -> (res: String)
    requires
        from <= to <= chars@.len(),
    ensures
        res@ == chars@.subrange(from as int, to as int),
{
    let mut out = String::new();
    let mut i: usize = from;
    while i < to
        invariant
            from <= i <= to <= chars@.len(),
            out@ == chars@.subrange(from as int, i as int),
        decreases to - i,
    {
        out.push(chars[i]);
        assert(chars@.subrange(from as int, i + 1) =~= chars@.subrange(from as int, i as int).push(
            chars@[i as int],
        ));
        i = i + 1;
    }
    out
}

/// Whether a character has Unicode's `White_Space` property.
pub open spec fn white_space(c: char) -> bool {
    ||| '\u{9}' <= c <= '\u{d}'
    ||| c == ' '
    ||| c == '\u{85}'
    ||| c == '\u{a0}'
    ||| c == '\u{1680}'
    ||| '\u{2000}' <= c <= '\u{200a}'
    ||| c == '\u{2028}'
    ||| c == '\u{2029}'
    ||| c == '\u{202f}'
    ||| c == '\u{205f}'
    ||| c == '\u{3000}'
}

/// Whether `c` is white space.
pub fn is_white_space(c: char) -> (res: bool)
    ensures
        res == white_space(c),
{
    ('\u{9}' <= c && c <= '\u{d}') || c == ' ' || c == '\u{85}' || c == '\u{a0}' || c == '\u{1680}'
        || ('\u{2000}' <= c && c <= '\u{200a}') || c == '\u{2028}' || c == '\u{2029}' || c
        == '\u{202f}' || c == '\u{205f}' || c == '\u{3000}'
}

/// `s` without the white space it begins with.
pub open spec fn trimmed_start(s: Seq<char>) -> Seq<char>
    decreases s.len(),
{
    if s.len() > 0 && white_space(s[0]) {
        trimmed_start(s.drop_first())
    } else {
        s
    }
}

/// `s` without the white space it ends with.
pub open spec fn trimmed_end(s: Seq<char>) -> Seq<char>
    decreases s.len(),
{
    if s.len() > 0 && white_space(s.last()) {
        trimmed_end(s.drop_last())
    } else {
        s
    }
}

/// `s` without the white space around it.
pub open spec fn trimmed(s: Seq<char>) -> Seq<char> {
    trimmed_end(trimmed_start(s))
}

/// `s` without the white space around it.
pub fn trim(s: &str) -> (res: String)
    ensures
        res@ == trimmed(s@),
{
    let chars = to_chars(s);
    let mut from: usize = 0;
    assert(chars@.skip(0) =~= chars@);
    while from < chars.len() && is_white_space(chars[from])
        invariant
            from <= chars@.len(),
            trimmed_start(chars@) == trimmed_start(chars@.skip(from as int)),
        decreases chars@.len() - from,
    {
        assert(chars@.skip(from as int).drop_first() =~= chars@.skip(from + 1));
        from = from + 1;
    }
    let ghost rest = chars@.skip(from as int);
    assert(trimmed_start(chars@) == rest);
    let mut to: usize = chars.len();
    assert(chars@.subrange(from as int, to as int) =~= rest);
    while to > from && is_white_space(chars[to - 1])
        invariant
            from <= to <= chars@.len(),
            trimmed_end(rest) == trimmed_end(chars@.subrange(from as int, to as int)),
        decreases to,
    {
        assert(chars@.subrange(from as int, to as int).drop_last() =~= chars@.subrange(
            from as int,
            to - 1,
        ));
        to = to - 1;
    }
    from_chars(chars.as_slice(), from, to)
}

/// The position of the first `c` in `s`, or its length where there is none.
pub open spec fn position_of(s: Seq<char>, c: char) -> nat
    decreases s.len(),
{
    if s.len() == 0 || s[0] == c {
        0
    } else {
        1 + position_of(s.drop_first(), c)
    }
}

/// The first occurrence splits `s`: nothing before it is `c`, and it is `c`.
pub proof fn lemma_position_of(s: Seq<char>, c: char)
    ensures
        position_of(s, c) <= s.len(),
        position_of(s, c) < s.len() ==> s[position_of(s, c) as int] == c,
        forall|i: int| 0 <= i < position_of(s, c) ==> s[i] != c,
    decreases s.len(),
{
    if s.len() == 0 || s[0] == c {
    } else {
        let rest = s.drop_first();
        lemma_position_of(rest, c);
        assert forall|i: int| 0 <= i < position_of(s, c) implies s[i] != c by {
            if i > 0 {
                assert(rest[i - 1] == s[i]);
            }
        }
    }
}

/// A position before which nothing is `c`, and which holds `c` or is the end, is
/// the first one.
pub proof fn lemma_position_of_unique(s: Seq<char>, c: char, at: int)
    requires
        0 <= at <= s.len(),
        at < s.len() ==> s[at] == c,
        forall|i: int| 0 <= i < at ==> s[i] != c,
    ensures
        position_of(s, c) == at,
{
    lemma_position_of(s, c);
    let first = position_of(s, c) as int;
    if first < at {
        assert(s[first] != c);
    } else if at < first {
        assert(s[at] != c);
    }
}

/// A line without the carriage return that is part of its ending.
pub open spec fn without_cr(s: Seq<char>) -> Seq<char> {
    if s.len() > 0 && s.last() == '\r' {
        s.drop_last()
    } else {
        s
    }
}

/// The lines of `s`. Each ends in a line feed or in a carriage return and a line
/// feed, which are not part of it; the last one may end with the text.
pub open spec fn lines_of(s: Seq<char>) -> Seq<Seq<char>>
    decreases s.len(),
    via lines_of_decreases
{
    let at = position_of(s, '\n') as int;
    if s.len() == 0 {
        Seq::empty()
    } else if at >= s.len() {
        seq![s]
    } else {
        seq![without_cr(s.take(at))] + lines_of(s.skip(at + 1))
    }
}

#[via_fn]
proof fn lines_of_decreases(s: Seq<char>) {
    lemma_position_of(s, '\n');
}

/// The lines of `s`.
pub fn lines(s: &str) -> (res: Vec<String>)
    ensures
        res.deep_view() == lines_of(s@),
{
    let chars = to_chars(s);
    let mut out: Vec<String> = Vec::new();
    let mut start: usize = 0;
    assert(chars@.skip(0) =~= chars@);
    assert(out.deep_view() + lines_of(chars@) =~= lines_of(chars@));
    while start < chars.len()
        invariant
            start <= chars@.len(),
            chars@ == s@,
            out.deep_view() + lines_of(chars@.skip(start as int)) == lines_of(chars@),
        decreases chars@.len() - start,
    {
        let ghost rest = chars@.skip(start as int);
        let ghost before = out.deep_view();
        let mut end: usize = start;
        while end < chars.len() && chars[end] != '\n'
            invariant
                start <= end <= chars@.len(),
                forall|i: int| start <= i < end ==> chars@[i] != '\n',
            decreases chars@.len() - end,
        {
            end = end + 1;
        }
        proof {
            assert forall|i: int| 0 <= i < end - start implies rest[i] != '\n' by {
                assert(rest[i] == chars@[start + i]);
            }
            lemma_position_of_unique(rest, '\n', end - start);
        }
        if end == chars.len() {
            let line = from_chars(chars.as_slice(), start, end);
            assert(line@ =~= rest);
            out.push(line);
            assert(out.deep_view() =~= before.push(rest));
            assert(before + seq![rest] =~= before.push(rest));
            assert(chars@.skip(end as int) =~= Seq::<char>::empty());
            assert(out.deep_view() + lines_of(chars@.skip(end as int)) =~= out.deep_view());
            start = end;
        } else {
            let stop: usize = if end > start && chars[end - 1] == '\r' {
                end - 1
            } else {
                end
            };
            let line = from_chars(chars.as_slice(), start, stop);
            let ghost whole = rest.take(end - start);
            proof {
                assert(end > start ==> whole.last() == chars@[end - 1]);
                assert(line@ =~= without_cr(whole));
            }
            out.push(line);
            proof {
                assert(out.deep_view() =~= before.push(without_cr(whole)));
                assert(rest.skip(end - start + 1) =~= chars@.skip(end + 1));
                assert(before + (seq![without_cr(whole)] + lines_of(chars@.skip(end + 1)))
                    =~= before.push(without_cr(whole)) + lines_of(chars@.skip(end + 1)));
            }
            start = end + 1;
        }
    }
    assert(chars@.skip(start as int) =~= Seq::<char>::empty());
    assert(out.deep_view() + Seq::<Seq<char>>::empty() =~= out.deep_view());
    out
}

/// Line number `index` of `s`, or the empty text where there are fewer lines.
pub open spec fn line_or_empty(s: Seq<char>, index: int) -> Seq<char> {
    if 0 <= index < lines_of(s).len() {
        lines_of(s)[index]
    } else {
        Seq::empty()
    }
}

/// Line number `index` of `s`, or the empty text where there are fewer lines.
pub fn nth_line(s: &str, index: usize) -> (res: String)
    ensures
        res@ == line_or_empty(s@, index as int),
{
    let all = lines(s);
    if index < all.len() {
        let line = all[index].clone();
        assert(line@ == all.deep_view()[index as int]);
        line
    } else {
        String::new()
    }
}

/// Whether `s` begins with `prefix`.
pub open spec fn begins_with(s: Seq<char>, prefix: Seq<char>) -> bool {
    prefix.len() <= s.len() && s.take(prefix.len() as int) == prefix
}

/// Whether `s` ends with `suffix`.
pub open spec fn ends_in(s: Seq<char>, suffix: Seq<char>) -> bool {
    suffix.len() <= s.len() && s.skip(s.len() - suffix.len()) == suffix
}

/// Whether the characters of `chars` from position `from` on begin with those of
/// `part`.
fn matches_at(chars: &[char], from: usize, part: &[char]) -> (res: bool)
    requires
        from + part@.len() <= chars@.len(),
    ensures
        res == (chars@.subrange(from as int, from + part@.len()) == part@),
{
    let total: usize = chars.len();
    let mut i: usize = 0;
    while i < part.len()
        invariant
            i <= part@.len(),
            total == chars@.len(),
            from + part@.len() <= chars@.len(),
            forall|k: int| 0 <= k < i ==> chars@[from + k] == part@[k],
        decreases part@.len() - i,
    {
        if chars[from + i] != part[i] {
            assert(chars@.subrange(from as int, from + part@.len())[i as int] != part@[i as int]);
            return false;
        }
        i = i + 1;
    }
    assert(chars@.subrange(from as int, from + part@.len()) =~= part@);
    true
}

/// What follows `prefix` in `s`, where `s` begins with it.
pub fn strip_prefix(s: &str, prefix: &str) -> (res: Option<String>)
    ensures
        res is Some <==> begins_with(s@, prefix@),
        res matches Some(rest) ==> rest@ == s@.skip(prefix@.len() as int),
{
    let chars = to_chars(s);
    let part = to_chars(prefix);
    if part.len() <= chars.len() && matches_at(chars.as_slice(), 0, part.as_slice()) {
        assert(chars@.subrange(0, part@.len() as int) =~= chars@.take(part@.len() as int));
        let rest = from_chars(chars.as_slice(), part.len(), chars.len());
        assert(rest@ =~= s@.skip(prefix@.len() as int));
        Some(rest)
    } else {
        assert(part@.len() <= chars@.len() ==> chars@.subrange(0, part@.len() as int)
            =~= chars@.take(part@.len() as int));
        None
    }
}

/// Whether `s` begins with the character `c`.
pub fn starts_with_char(s: &str, c: char) -> (res: bool)
    ensures
        res == (s@.len() > 0 && s@[0] == c),
{
    let chars = to_chars(s);
    chars.len() > 0 && chars[0] == c
}

/// Whether `s` ends with `suffix`.
pub fn ends_with(s: &str, suffix: &str) -> (res: bool)
    ensures
        res == ends_in(s@, suffix@),
{
    let chars = to_chars(s);
    let part = to_chars(suffix);
    if part.len() <= chars.len() {
        let from: usize = chars.len() - part.len();
        assert(chars@.subrange(from as int, from + part@.len()) =~= chars@.skip(from as int));
        matches_at(chars.as_slice(), from, part.as_slice())
    } else {
        false
    }
}

/// `s` without the `c`s it begins with.
pub open spec fn without_leading(s: Seq<char>, c: char) -> Seq<char>
    decreases s.len(),
{
    if s.len() > 0 && s[0] == c {
        without_leading(s.drop_first(), c)
    } else {
        s
    }
}

/// `s` without the `c`s it begins with.
pub fn trim_start_matches(s: &str, c: char) -> (res: String)
    ensures
        res@ == without_leading(s@, c),
{
    let chars = to_chars(s);
    let mut from: usize = 0;
    assert(chars@.skip(0) =~= chars@);
    while from < chars.len() && chars[from] == c
        invariant
            from <= chars@.len(),
            without_leading(chars@, c) == without_leading(chars@.skip(from as int), c),
        decreases chars@.len() - from,
    {
        assert(chars@.skip(from as int).drop_first() =~= chars@.skip(from + 1));
        from = from + 1;
    }
    let out = from_chars(chars.as_slice(), from, chars.len());
    assert(out@ =~= chars@.skip(from as int));
    out
}

/// Whether `c` is an ASCII letter or digit.
pub open spec fn ascii_alphanumeric(c: char) -> bool {
    'a' <= c <= 'z' || 'A' <= c <= 'Z' || '0' <= c <= '9'
}

/// Whether `c` is an ASCII letter or digit.
pub fn is_ascii_alphanumeric(c: char) -> (res: bool)
    ensures
        res == ascii_alphanumeric(c),
{
    ('a' <= c && c <= 'z') || ('A' <= c && c <= 'Z') || ('0' <= c && c <= '9')
}

/// `c` in lower case where it is an ASCII letter, and unchanged otherwise.
pub open spec fn ascii_lower(c: char) -> char {
    if 'A' <= c <= 'Z' {
        (c as u8 + 32) as char
    } else {
        c
    }
}

/// `s` with its ASCII letters in lower case.
pub fn to_ascii_lowercase(s: &str) -> (res: String)
    ensures
        res@ == s@.map_values(|c: char| ascii_lower(c)),
{
    let chars = to_chars(s);
    let mut out = String::new();
    let mut i: usize = 0;
    while i < chars.len()
        invariant
            i <= chars@.len(),
            out@ == chars@.take(i as int).map_values(|c: char| ascii_lower(c)),
        decreases chars@.len() - i,
    {
        let c = chars[i];
        let lower = if 'A' <= c && c <= 'Z' {
            (c as u8 + 32) as char
        } else {
            c
        };
        out.push(lower);
        assert(chars@.take(i + 1).map_values(|c: char| ascii_lower(c)) =~= chars@.take(
            i as int,
        ).map_values(|c: char| ascii_lower(c)).push(ascii_lower(c)));
        i = i + 1;
    }
    assert(chars@.take(i as int) =~= chars@);
    out
}

/// The decimal digit `d`.
pub open spec fn digit_char(d: nat) -> char {
    (d as u8 + 48) as char
}

/// `n` in decimal, without leading zeros.
pub open spec fn decimal(n: nat) -> Seq<char>
    decreases n,
{
    if n < 10 {
        seq![digit_char(n)]
    } else {
        decimal(n / 10).push(digit_char(n % 10))
    }
}

/// `n` in decimal, without leading zeros.
pub fn decimal_text(n: u64) -> (res: String)
    ensures
        res@ == decimal(n as nat),
    decreases n,
{
    let digit = (((n % 10) as u8) + 48) as char;
    if n < 10 {
        let mut out = String::new();
        out.push(digit);
        assert(out@ =~= decimal(n as nat));
        out
    } else {
        let mut out = decimal_text(n / 10);
        out.push(digit);
        out
    }
}

/// Different numbers have different decimals.
pub proof fn lemma_decimal_injective(a: nat, b: nat)
    requires
        decimal(a) == decimal(b),
    ensures
        a == b,
    decreases a,
{
    let one = decimal(a);
    let other = decimal(b);
    lemma_decimal_len(a);
    lemma_decimal_len(b);
    assert(one.last() == digit_char(a % 10));
    assert(other.last() == digit_char(b % 10));
    assert(a % 10 == b % 10);
    if a >= 10 && b >= 10 {
        assert(one.drop_last() =~= decimal(a / 10));
        assert(other.drop_last() =~= decimal(b / 10));
        lemma_decimal_injective(a / 10, b / 10);
    }
}

proof fn lemma_decimal_len(n: nat)
    ensures
        decimal(n).len() >= 1,
        n >= 10 ==> decimal(n).len() >= 2,
    decreases n,
{
    if n >= 10 {
        lemma_decimal_len(n / 10);
    }
}

/// A decimal holds digits only.
pub proof fn lemma_decimal_digits(n: nat)
    ensures
        forall|i: int| 0 <= i < decimal(n).len() ==> '0' <= #[trigger] decimal(n)[i] <= '9',
    decreases n,
{
    if n >= 10 {
        lemma_decimal_digits(n / 10);
        let front = decimal(n / 10);
        assert forall|i: int| 0 <= i < decimal(n).len() implies '0' <= #[trigger] decimal(n)[i]
            <= '9' by {
            if i < front.len() {
                assert(decimal(n)[i] == front[i]);
            }
        }
    }
}

/// White space is what Unicode gives the property to: the controls from tab to carriage
/// return, the next-line control, and the space characters.
pub proof fn law_white_space_codes(c: char)
    ensures
        white_space(c) <==> {
            let code = c as u32;
            ||| 9 <= code <= 13
            ||| code == 32
            ||| code == 133
            ||| code == 160
            ||| code == 5760
            ||| 8192 <= code <= 8202
            ||| code == 8232 || code == 8233
            ||| code == 8239 || code == 8287 || code == 12288
        },
{
}

/// Whether a text is nothing but white space.
pub open spec fn all_white(s: Seq<char>) -> bool {
    forall|i: int| 0 <= i < s.len() ==> white_space(#[trigger] s[i])
}

/// Whether a text neither begins nor ends with white space.
pub open spec fn tight(s: Seq<char>) -> bool {
    s.len() > 0 ==> !white_space(s[0]) && !white_space(s.last())
}

proof fn lemma_trimmed_start(s: Seq<char>) -> (front: Seq<char>)
    ensures
        all_white(front),
        s == front + trimmed_start(s),
        trimmed_start(s).len() > 0 ==> !white_space(trimmed_start(s)[0]),
    decreases s.len(),
{
    if s.len() > 0 && white_space(s[0]) {
        let rest = lemma_trimmed_start(s.drop_first());
        let front = seq![s[0]] + rest;
        assert(s =~= seq![s[0]] + s.drop_first());
        assert(front + trimmed_start(s) =~= seq![s[0]] + (rest + trimmed_start(s)));
        front
    } else {
        assert(s =~= Seq::<char>::empty() + s);
        Seq::empty()
    }
}

proof fn lemma_trimmed_end(s: Seq<char>) -> (back: Seq<char>)
    ensures
        all_white(back),
        s == trimmed_end(s) + back,
        trimmed_end(s).len() > 0 ==> !white_space(trimmed_end(s).last()),
    decreases s.len(),
{
    if s.len() > 0 && white_space(s.last()) {
        let rest = lemma_trimmed_end(s.drop_last());
        let back = rest.push(s.last());
        assert(s =~= s.drop_last().push(s.last()));
        assert(trimmed_end(s) + back =~= (trimmed_end(s) + rest).push(s.last()));
        back
    } else {
        assert(s =~= s + Seq::<char>::empty());
        Seq::empty()
    }
}

/// Trimming takes away white space at both ends, and all that is there.
pub proof fn law_trimmed_takes_the_ends(s: Seq<char>) -> (ends: (Seq<char>, Seq<char>))
    ensures
        all_white(ends.0),
        all_white(ends.1),
        s == ends.0 + trimmed(s) + ends.1,
        tight(trimmed(s)),
{
    let front = lemma_trimmed_start(s);
    let middle = trimmed_start(s);
    let back = lemma_trimmed_end(middle);
    assert(s =~= front + trimmed(s) + back);
    if trimmed(s).len() > 0 {
        assert(trimmed(s)[0] == middle[0]);
    }
    (front, back)
}

/// Whatever white space is put around a text that has none at its ends, trimming gives
/// that text back.
pub proof fn law_trimmed_undoes_padding(front: Seq<char>, middle: Seq<char>, back: Seq<char>)
    requires
        all_white(front),
        all_white(back),
        tight(middle),
    ensures
        trimmed(front + middle + back) == middle,
    decreases front.len() + back.len(),
{
    let whole = front + middle + back;
    if front.len() > 0 {
        assert(whole[0] == front[0]);
        assert(whole.drop_first() =~= front.drop_first() + middle + back);
        law_trimmed_undoes_padding(front.drop_first(), middle, back);
    } else if middle.len() > 0 {
        assert(whole[0] == middle[0]);
        lemma_trimmed_padded_end(middle, back);
        assert(whole =~= middle + back);
    } else if back.len() > 0 {
        assert(whole[0] == back[0]);
        assert(whole.drop_first() =~= front + middle + back.drop_first());
        law_trimmed_undoes_padding(front, middle, back.drop_first());
    } else {
        assert(whole =~= middle);
    }
}

proof fn lemma_trimmed_padded_end(middle: Seq<char>, back: Seq<char>)
    requires
        all_white(back),
        middle.len() > 0,
        !white_space(middle.last()),
    ensures
        trimmed_end(middle + back) == middle,
    decreases back.len(),
{
    let whole = middle + back;
    if back.len() > 0 {
        assert(whole.last() == back.last());
        assert(whole.drop_last() =~= middle + back.drop_last());
        lemma_trimmed_padded_end(middle, back.drop_last());
    } else {
        assert(whole =~= middle);
    }
}

/// A text that ends in a line feed, or in a carriage return and a line feed, is a line
/// and the lines of what follows it. One without a line feed is a line as it stands, and
/// the empty text has no line.
pub proof fn law_lines_are_split_at_line_feeds(line: Seq<char>, rest: Seq<char>)
    requires
        forall|i: int| 0 <= i < line.len() ==> line[i] != '\n',
    ensures
        lines_of(line + seq!['\r', '\n'] + rest) == seq![line] + lines_of(rest),
        !(line.len() > 0 && line.last() == '\r') ==> lines_of(line + seq!['\n'] + rest) == seq![line]
            + lines_of(rest),
        line.len() > 0 ==> lines_of(line) == seq![line],
        lines_of(Seq::empty()) == Seq::<Seq<char>>::empty(),
{
    let ended = line.push('\r');
    let n = line.len() as int;
    let crlf = line + seq!['\r', '\n'] + rest;
    lemma_position_of_unique(crlf, '\n', n + 1);
    assert(crlf.take(n + 1) =~= ended);
    assert(ended.drop_last() =~= line);
    assert(crlf.skip(n + 2) =~= rest);
    let lf = line + seq!['\n'] + rest;
    lemma_position_of_unique(lf, '\n', n);
    assert(lf.take(n) =~= line);
    assert(lf.skip(n + 1) =~= rest);
    lemma_position_of_unique(line, '\n', n);
}

/// The first two lines of a text are told as they stand, and a line that is not there is
/// told as an empty one.
pub proof fn law_line_or_empty(first: Seq<char>, second: Seq<char>, rest: Seq<char>)
    requires
        forall|i: int| 0 <= i < first.len() ==> first[i] != '\n',
        forall|i: int| 0 <= i < second.len() ==> second[i] != '\n',
        !(first.len() > 0 && first.last() == '\r'),
        !(second.len() > 0 && second.last() == '\r'),
    ensures
        line_or_empty(first + seq!['\n'] + (second + seq!['\n'] + rest), 0) == first,
        line_or_empty(first + seq!['\n'] + (second + seq!['\n'] + rest), 1) == second,
        line_or_empty(first + seq!['\n'] + second, 0) == first,
        line_or_empty(first + seq!['\n'] + second, 1) == second,
        line_or_empty(first, 0) == first,
        line_or_empty(first, 1) == Seq::<char>::empty(),
{
    law_lines_are_split_at_line_feeds(first, second + seq!['\n'] + rest);
    law_lines_are_split_at_line_feeds(second, rest);
    law_lines_are_split_at_line_feeds(first, second);
    if second.len() == 0 {
        assert(second =~= Seq::<char>::empty());
    }
    if first.len() == 0 {
        assert(first =~= Seq::<char>::empty());
    }
}

/// A text begins with another exactly when it is that one and something behind it, and
/// ends in another exactly when it is something and that one behind it.
pub proof fn law_begins_and_ends(s: Seq<char>, part: Seq<char>, rest: Seq<char>)
    ensures
        begins_with(part + rest, part),
        begins_with(s, part) ==> s == part + s.skip(part.len() as int),
        ends_in(rest + part, part),
        ends_in(s, part) ==> s == s.take(s.len() - part.len()) + part,
{
    assert((part + rest).take(part.len() as int) =~= part);
    assert((rest + part).skip(rest.len() as int) =~= part);
    if begins_with(s, part) {
        assert(s =~= s.take(part.len() as int) + s.skip(part.len() as int));
    }
    if ends_in(s, part) {
        assert(s =~= s.take(s.len() - part.len()) + s.skip(s.len() - part.len()));
    }
}

/// Without the characters that it begins with, a text is what follows all of them.
pub proof fn law_without_leading(c: char, count: nat, rest: Seq<char>)
    requires
        rest.len() > 0 ==> rest[0] != c,
    ensures
        without_leading(Seq::new(count, |i: int| c) + rest, c) == rest,
    decreases count,
{
    let whole = Seq::new(count, |i: int| c) + rest;
    if count == 0 {
        assert(whole =~= rest);
    } else {
        assert(whole[0] == c);
        assert(whole.drop_first() =~= Seq::new((count - 1) as nat, |i: int| c) + rest);
        law_without_leading(c, (count - 1) as nat, rest);
    }
}

/// Letters and digits are those of ASCII, and lower case changes the capital letters of
/// ASCII alone, each to the letter that stands 32 codes behind it.
pub proof fn law_ascii_letters(c: char)
    ensures
        ascii_alphanumeric(c) <==> (48 <= c as u32 <= 57 || 65 <= c as u32 <= 90 || 97 <= c as u32
            <= 122),
        65 <= c as u32 <= 90 ==> ascii_lower(c) as u32 == c as u32 + 32,
        !(65 <= c as u32 <= 90) ==> ascii_lower(c) == c,
{
}

/// The number that decimal digits stand for.
pub open spec fn number_of_digits(digits: Seq<char>) -> int
    decreases digits.len(),
{
    if digits.len() == 0 {
        0
    } else {
        10 * number_of_digits(digits.drop_last()) + (digits.last() as u32 - 48)
    }
}

/// A decimal holds digits only, stands for its number, and has no zero before others.
pub proof fn law_decimal_reads_back(n: nat)
    ensures
        decimal(n).len() > 0,
        forall|i: int| 0 <= i < decimal(n).len() ==> 48 <= (#[trigger] decimal(n)[i]) as u32 <= 57,
        number_of_digits(decimal(n)) == n,
        decimal(n)[0] as u32 == 48 ==> n == 0 && decimal(n).len() == 1,
    decreases n,
{
    if n < 10 {
        assert(decimal(n).drop_last() =~= Seq::<char>::empty());
        assert(number_of_digits(Seq::<char>::empty()) == 0);
        assert(decimal(n).last() as u32 == n + 48);
    } else {
        law_decimal_reads_back(n / 10);
        let front = decimal(n / 10);
        assert(decimal(n).drop_last() =~= front);
        assert(decimal(n)[0] == front[0]);
        assert forall|i: int| 0 <= i < decimal(n).len() implies 48 <= (
        #[trigger] decimal(n)[i]) as u32 <= 57 by {
            if i < front.len() {
                assert(decimal(n)[i] == front[i]);
            }
        }
    }
}

/// Whether `part` stands somewhere in `s`.
pub open spec fn mentions(s: Seq<char>, part: Seq<char>) -> bool {
    exists|at: int|
        0 <= at && at + part.len() <= s.len() && #[trigger] s.subrange(at, at + part.len()) == part
}

/// A text mentions what stands between two others in it.
pub proof fn lemma_mentions(front: Seq<char>, part: Seq<char>, back: Seq<char>)
    ensures
        mentions(front + part + back, part),
{
    let s = front + part + back;
    let at = front.len() as int;
    assert(s.subrange(at, at + part.len()) =~= part);
}

/// Characters of one code are the same.
pub proof fn lemma_same_code(a: char, b: char)
    requires
        a as u32 == b as u32,
    ensures
        a == b,
{
}

} // verus!
