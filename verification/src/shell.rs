//! Quoting: words for the POSIX shell of a remote host, paths for an ssh
//! configuration, and names for files.
use crate::text::is_ascii_alphanumeric;
use crate::text::to_chars;
use crate::text;
use vstd::prelude::*;
use vstd::string::*;

verus! {

/// Whether a character stands for itself in an unquoted shell word.
pub open spec fn bare_char(c: char) -> bool {
    ||| text::ascii_alphanumeric(c)
    ||| c == '@'
    ||| c == '%'
    ||| c == '_'
    ||| c == '+'
    ||| c == '='
    ||| c == ':'
    ||| c == ','
    ||| c == '.'
    ||| c == '/'
    ||| c == '-'
}

/// Whether `value` needs no quotes.
pub open spec fn bare_word(value: Seq<char>) -> bool {
    value.len() > 0 && forall|i: int| 0 <= i < value.len() ==> bare_char(#[trigger] value[i])
}

/// What stands for the character `c` between single quotes: itself, and for a
/// single quote the end of the quotes, an escaped quote and new quotes.
pub open spec fn within_quotes(c: char) -> Seq<char> {
    if c == '\'' {
        seq!['\'', '\\', '\'', '\'']
    } else {
        seq![c]
    }
}

/// What stands for `value` between single quotes.
pub open spec fn all_within_quotes(value: Seq<char>) -> Seq<char>
    decreases value.len(),
{
    if value.len() == 0 {
        Seq::empty()
    } else {
        all_within_quotes(value.drop_last()) + within_quotes(value.last())
    }
}

/// `value` as one word of a shell command.
pub open spec fn shell_quoted(value: Seq<char>) -> Seq<char> {
    if bare_word(value) {
        value
    } else {
        seq!['\''] + all_within_quotes(value) + seq!['\'']
    }
}

fn is_bare_char(c: char) -> (res: bool)
    ensures
        res == bare_char(c),
{
    is_ascii_alphanumeric(c) || c == '@' || c == '%' || c == '_' || c == '+' || c == '=' || c == ':'
        || c == ',' || c == '.' || c == '/' || c == '-'
}

fn is_bare_word(chars: &[char]) -> (res: bool)
    ensures
        res == bare_word(chars@),
{
    if chars.len() == 0 {
        return false;
    }
    let mut i: usize = 0;
    while i < chars.len()
        invariant
            i <= chars@.len(),
            forall|j: int| 0 <= j < i ==> bare_char(#[trigger] chars@[j]),
        decreases chars@.len() - i,
    {
        if !is_bare_char(chars[i]) {
            assert(!bare_char(chars@[i as int]));
            return false;
        }
        i = i + 1;
    }
    true
}

/// `value` as one word of a shell command.
pub fn shell_quote(value: &str) -> (res: String)
    ensures
        res@ == shell_quoted(value@),
{
    let chars = to_chars(value);
    if is_bare_word(chars.as_slice()) {
        return value.to_string();
    }
    let mut out = String::new();
    out.push('\'');
    assert(out@ =~= seq!['\''] + all_within_quotes(chars@.take(0)));
    let mut i: usize = 0;
    while i < chars.len()
        invariant
            i <= chars@.len(),
            out@ == seq!['\''] + all_within_quotes(chars@.take(i as int)),
        decreases chars@.len() - i,
    {
        let c = chars[i];
        let ghost before = out@;
        if c == '\'' {
            out.push('\'');
            out.push('\\');
            out.push('\'');
            out.push('\'');
        } else {
            out.push(c);
        }
        proof {
            assert(out@ =~= before + within_quotes(c));
            assert(chars@.take(i + 1).drop_last() =~= chars@.take(i as int));
            assert(seq!['\''] + (all_within_quotes(chars@.take(i as int)) + within_quotes(c))
                =~= before + within_quotes(c));
        }
        i = i + 1;
    }
    assert(chars@.take(i as int) =~= chars@);
    out.push('\'');
    assert(out@ =~= seq!['\''] + all_within_quotes(chars@) + seq!['\'']);
    out
}

/// The words that a POSIX shell reads in `line`, which holds nothing but bare
/// characters, spaces, single quotes and backslashes outside of quotes. `word` is
/// the word that is being read, and `quoted` tells whether within quotes.
pub open spec fn shell_words(
    line: Seq<char>,
    word: Option<Seq<char>>,
    quoted: bool,
) -> Option<Seq<Seq<char>>>
    decreases line.len(),
{
    let so_far = match word {
        Some(chars) => chars,
        None => Seq::empty(),
    };
    if line.len() == 0 {
        if quoted {
            None
        } else {
            match word {
                Some(chars) => Some(seq![chars]),
                None => Some(Seq::empty()),
            }
        }
    } else {
        let c = line[0];
        let rest = line.drop_first();
        if quoted {
            if c == '\'' {
                shell_words(rest, Some(so_far), false)
            } else {
                shell_words(rest, Some(so_far.push(c)), true)
            }
        } else if c == '\'' {
            shell_words(rest, Some(so_far), true)
        } else if c == '\\' {
            if rest.len() == 0 {
                None
            } else {
                shell_words(rest.drop_first(), Some(so_far.push(rest[0])), false)
            }
        } else if c == ' ' {
            match word {
                Some(chars) => match shell_words(rest, None, false) {
                    Some(words) => Some(seq![chars] + words),
                    None => None,
                },
                None => shell_words(rest, None, false),
            }
        } else if bare_char(c) {
            shell_words(rest, Some(so_far.push(c)), false)
        } else {
            None
        }
    }
}

proof fn lemma_read_bare(value: Seq<char>, rest: Seq<char>, word: Seq<char>)
    requires
        forall|i: int| 0 <= i < value.len() ==> bare_char(#[trigger] value[i]),
    ensures
        shell_words(value + rest, Some(word), false) == shell_words(rest, Some(word + value), false),
    decreases value.len(),
{
    if value.len() == 0 {
        assert(value + rest =~= rest);
        assert(word + value =~= word);
    } else {
        let c = value[0];
        let line = value + rest;
        assert(line[0] == c);
        assert(line.drop_first() =~= value.drop_first() + rest);
        lemma_read_bare(value.drop_first(), rest, word.push(c));
        assert(word.push(c) + value.drop_first() =~= word + value);
    }
}

proof fn lemma_read_quoted(value: Seq<char>, rest: Seq<char>, word: Seq<char>)
    ensures
        shell_words(all_within_quotes(value) + rest, Some(word), true) == shell_words(
            rest,
            Some(word + value),
            true,
        ),
    decreases value.len(),
{
    if value.len() == 0 {
        assert(all_within_quotes(value) + rest =~= rest);
        assert(word + value =~= word);
    } else {
        let c = value.last();
        let front = value.drop_last();
        let line = within_quotes(c) + rest;
        assert(all_within_quotes(value) + rest =~= all_within_quotes(front) + line);
        lemma_read_quoted(front, line, word);
        let read = word + front;
        assert(word + value =~= read.push(c));
        if c == '\'' {
            let after1 = seq!['\\', '\'', '\''] + rest;
            let after2 = seq!['\'', '\''] + rest;
            let after3 = seq!['\''] + rest;
            assert(line.drop_first() =~= after1);
            assert(after1.drop_first() =~= after2);
            assert(after2.drop_first() =~= after3);
            assert(after3.drop_first() =~= rest);
            assert(shell_words(line, Some(read), true) == shell_words(after1, Some(read), false));
            assert(shell_words(after1, Some(read), false) == shell_words(
                after3,
                Some(read.push('\'')),
                false,
            ));
            assert(shell_words(after3, Some(read.push('\'')), false) == shell_words(
                rest,
                Some(read.push('\'')),
                true,
            ));
        } else {
            assert(line.drop_first() =~= rest);
        }
    }
}

/// A shell reads a quoted value as one word, the value itself, whatever characters
/// the value holds and whatever follows.
pub proof fn law_shell_quote_reads_back(value: Seq<char>, rest: Seq<char>)
    ensures
        shell_words(shell_quoted(value) + rest, None, false) == shell_words(
            rest,
            Some(value),
            false,
        ),
{
    let empty = Seq::<char>::empty();
    if bare_word(value) {
        let line = value + rest;
        assert(line[0] == value[0]);
        assert(line.drop_first() =~= value.drop_first() + rest);
        lemma_read_bare(value.drop_first(), rest, empty.push(value[0]));
        assert(empty.push(value[0]) + value.drop_first() =~= value);
    } else {
        let line = shell_quoted(value) + rest;
        let tail = seq!['\''] + rest;
        assert(line.drop_first() =~= all_within_quotes(value) + tail);
        lemma_read_quoted(value, tail, empty);
        assert(empty + value =~= value);
        assert(tail.drop_first() =~= rest);
    }
}

/// A shell reads a line of one quoted value as that one word.
pub proof fn law_shell_quote_is_one_word(value: Seq<char>)
    ensures
        shell_words(shell_quoted(value), None, false) == Some(seq![value]),
{
    law_shell_quote_reads_back(value, Seq::empty());
    assert(shell_quoted(value) + Seq::<char>::empty() =~= shell_quoted(value));
}

/// A shell reads a quoted value, a space and a further line as the value's word and
/// the words of that line.
pub proof fn law_shell_quote_then_words(value: Seq<char>, line: Seq<char>)
    ensures
        shell_words(shell_quoted(value) + seq![' '] + line, None, false) == (match shell_words(
            line,
            None,
            false,
        ) {
            Some(words) => Some(seq![value] + words),
            None => None,
        }),
{
    let rest = seq![' '] + line;
    assert(shell_quoted(value) + seq![' '] + line =~= shell_quoted(value) + rest);
    law_shell_quote_reads_back(value, rest);
    assert(rest.drop_first() =~= line);
}

/// A line of `words`, each of them quoted, with spaces between them.
pub open spec fn quoted_line(words: Seq<Seq<char>>) -> Seq<char>
    decreases words.len(),
{
    if words.len() == 0 {
        Seq::empty()
    } else if words.len() == 1 {
        shell_quoted(words[0])
    } else {
        quoted_line(words.drop_last()) + seq![' '] + shell_quoted(words.last())
    }
}

/// A line of `words`, each of them quoted, with spaces between them.
pub fn quote_line(words: &[String]) -> (res: String)
    ensures
        res@ == quoted_line(words.deep_view()),
{
    let ghost all = words.deep_view();
    let mut out = String::new();
    let mut i: usize = 0;
    assert(out@ =~= quoted_line(all.take(0)));
    while i < words.len()
        invariant
            all == words.deep_view(),
            all.len() == words@.len(),
            i <= words@.len(),
            out@ == quoted_line(all.take(i as int)),
        decreases words@.len() - i,
    {
        let ghost before = out@;
        if i > 0 {
            out.push(' ');
        }
        let quoted = shell_quote(words[i].as_str());
        out.append(quoted.as_str());
        proof {
            let longer = all.take(i + 1);
            assert(all[i as int] == words@[i as int]@);
            assert(longer.drop_last() =~= all.take(i as int));
            if i > 0 {
                assert(out@ =~= before + seq![' '] + quoted@);
            } else {
                assert(out@ =~= quoted@);
            }
        }
        i = i + 1;
    }
    assert(all.take(i as int) =~= all);
    out
}

proof fn lemma_quoted_line_then(words: Seq<Seq<char>>, rest: Seq<char>)
    requires
        words.len() > 0,
    ensures
        shell_words(quoted_line(words) + seq![' '] + rest, None, false) == (match shell_words(
            rest,
            None,
            false,
        ) {
            Some(more) => Some(words + more),
            None => None,
        }),
    decreases words.len(),
{
    if words.len() == 1 {
        assert(words =~= seq![words[0]]);
        law_shell_quote_then_words(words[0], rest);
    } else {
        let front = words.drop_last();
        let last = words.last();
        let tail = shell_quoted(last) + seq![' '] + rest;
        assert(quoted_line(words) + seq![' '] + rest =~= quoted_line(front) + seq![' '] + tail);
        lemma_quoted_line_then(front, tail);
        law_shell_quote_then_words(last, rest);
        if let Some(more) = shell_words(rest, None, false) {
            assert(front + (seq![last] + more) =~= words + more);
        }
    }
}

/// A shell reads a line of quoted words as those words.
pub proof fn law_quoted_line_reads_back(words: Seq<Seq<char>>)
    ensures
        shell_words(quoted_line(words), None, false) == Some(words),
{
    if words.len() == 0 {
        assert(words =~= Seq::<Seq<char>>::empty());
    } else if words.len() == 1 {
        law_shell_quote_is_one_word(words[0]);
        assert(words =~= seq![words[0]]);
    } else {
        let front = words.drop_last();
        let last = words.last();
        lemma_quoted_line_then(front, shell_quoted(last));
        law_shell_quote_is_one_word(last);
        assert(front + seq![last] =~= words);
    }
}

/// `path` as one token of an ssh configuration.
pub fn ssh_config_quote(path: &str) -> (res: String)
    ensures
        res@ == seq!['"'] + path@ + seq!['"'],
{
    let mut out = String::new();
    out.push('"');
    out.append(path);
    out.push('"');
    assert(out@ =~= seq!['"'] + path@ + seq!['"']);
    out
}

/// Whether a character is kept in the name of a file.
pub open spec fn name_char(c: char) -> bool {
    text::ascii_alphanumeric(c) || c == '.' || c == '_' || c == '-'
}

/// `s` without the dashes it begins with.
pub open spec fn without_leading_dashes(s: Seq<char>) -> Seq<char> {
    text::without_leading(s, '-')
}

/// `s` without the dashes it ends with.
pub open spec fn without_trailing_dashes(s: Seq<char>) -> Seq<char>
    decreases s.len(),
{
    if s.len() > 0 && s.last() == '-' {
        without_trailing_dashes(s.drop_last())
    } else {
        s
    }
}

/// The longest part of a file's name that a text is shortened to.
pub const MAX_NAME_PART: usize = 32;

/// The first characters of `s`, as many as a file's name takes.
pub open spec fn shortened(s: Seq<char>) -> Seq<char> {
    if s.len() <= MAX_NAME_PART {
        s
    } else {
        s.take(MAX_NAME_PART as int)
    }
}

/// `s` with a dash for every character that is not kept in the name of a file.
pub open spec fn with_name_chars(s: Seq<char>) -> Seq<char> {
    s.map_values(
        |c: char|
            if name_char(c) {
                c
            } else {
                '-'
            },
    )
}

/// `input` as part of a file's name.
pub open spec fn sanitized(input: Seq<char>) -> Seq<char> {
    shortened(without_trailing_dashes(without_leading_dashes(with_name_chars(input))))
}

/// `input` as part of a file's name: with dashes for characters that are not kept,
/// without dashes around it, and not longer than a name's part may be.
pub fn sanitize_path_component(input: &str) -> (res: String)
    ensures
        res@ == sanitized(input@),
{
    let chars = to_chars(input);
    let mut kept: Vec<char> = Vec::new();
    let mut i: usize = 0;
    while i < chars.len()
        invariant
            i <= chars@.len(),
            kept@ == with_name_chars(chars@.take(i as int)),
        decreases chars@.len() - i,
    {
        let c = chars[i];
        if is_ascii_alphanumeric(c) || c == '.' || c == '_' || c == '-' {
            kept.push(c);
        } else {
            kept.push('-');
        }
        assert(kept@ =~= with_name_chars(chars@.take(i + 1)));
        i = i + 1;
    }
    assert(chars@.take(i as int) =~= chars@);
    let mut from: usize = 0;
    assert(kept@.skip(0) =~= kept@);
    while from < kept.len() && kept[from] == '-'
        invariant
            from <= kept@.len(),
            without_leading_dashes(kept@) == without_leading_dashes(kept@.skip(from as int)),
        decreases kept@.len() - from,
    {
        assert(kept@.skip(from as int).drop_first() =~= kept@.skip(from + 1));
        from = from + 1;
    }
    let ghost rest = kept@.skip(from as int);
    assert(without_leading_dashes(kept@) == rest);
    let mut to: usize = kept.len();
    assert(kept@.subrange(from as int, to as int) =~= rest);
    while to > from && kept[to - 1] == '-'
        invariant
            from <= to <= kept@.len(),
            without_trailing_dashes(rest) == without_trailing_dashes(
                kept@.subrange(from as int, to as int),
            ),
        decreases to,
    {
        assert(kept@.subrange(from as int, to as int).drop_last() =~= kept@.subrange(
            from as int,
            to - 1,
        ));
        to = to - 1;
    }
    let ghost trimmed = kept@.subrange(from as int, to as int);
    if to - from > MAX_NAME_PART {
        to = from + MAX_NAME_PART;
    }
    assert(kept@.subrange(from as int, to as int) =~= shortened(trimmed));
    text::from_chars(kept.as_slice(), from, to)
}

proof fn lemma_without_leading_dashes(s: Seq<char>)
    ensures
        without_leading_dashes(s).len() <= s.len(),
        without_leading_dashes(s) == s.skip(s.len() - without_leading_dashes(s).len()),
        without_leading_dashes(s).len() > 0 ==> without_leading_dashes(s)[0] != '-',
    decreases s.len(),
{
    if s.len() > 0 && s[0] == '-' {
        let rest = s.drop_first();
        lemma_without_leading_dashes(rest);
        let cut = rest.len() - without_leading_dashes(rest).len();
        assert(rest.skip(cut) =~= s.skip(cut + 1));
    } else {
        assert(s.skip(0) =~= s);
    }
}

proof fn lemma_without_trailing_dashes(s: Seq<char>)
    ensures
        without_trailing_dashes(s).len() <= s.len(),
        without_trailing_dashes(s) == s.take(without_trailing_dashes(s).len() as int),
    decreases s.len(),
{
    if s.len() > 0 && s.last() == '-' {
        let front = s.drop_last();
        lemma_without_trailing_dashes(front);
        let kept = without_trailing_dashes(front).len() as int;
        assert(front.take(kept) =~= s.take(kept));
    } else {
        assert(s.take(s.len() as int) =~= s);
    }
}

/// A part of a file's name is short, holds only characters that are kept there, and
/// does not begin with a dash.
pub proof fn law_sanitized_is_a_name(input: Seq<char>)
    ensures
        sanitized(input).len() <= MAX_NAME_PART,
        forall|i: int| 0 <= i < sanitized(input).len() ==> name_char(#[trigger] sanitized(input)[i]),
        sanitized(input).len() > 0 ==> sanitized(input)[0] != '-',
{
    let all = with_name_chars(input);
    let front = without_leading_dashes(all);
    lemma_without_leading_dashes(all);
    lemma_without_trailing_dashes(front);
    let cut = all.len() - front.len();
    assert forall|i: int| 0 <= i < sanitized(input).len() implies name_char(
        #[trigger] sanitized(input)[i],
    ) by {
        assert(sanitized(input)[i] == front[i]);
        assert(front[i] == all[i + cut]);
    }
    if sanitized(input).len() > 0 {
        assert(sanitized(input)[0] == front[0]);
    }
}

/// One more word of a line stands behind a space.
pub proof fn lemma_quoted_line_push(words: Seq<Seq<char>>, word: Seq<char>)
    requires
        words.len() > 0,
    ensures
        quoted_line(words.push(word)) == quoted_line(words) + seq![' '] + shell_quoted(word),
{
    assert(words.push(word).drop_last() =~= words);
}

/// The characters that stand for themselves in an unquoted word are the letters and digits
/// of ASCII and a few marks, none of which a shell reads as anything else.
pub proof fn law_bare_characters(c: char)
    ensures
        bare_char(c) <==> {
            let code = c as u32;
            ||| 48 <= code <= 57
            ||| 65 <= code <= 90
            ||| 97 <= code <= 122
            ||| code == 64 || code == 37 || code == 95 || code == 43 || code == 61
            ||| code == 58 || code == 44 || code == 46 || code == 47 || code == 45
        },
{
}

/// A value that is empty or holds a character which a shell could read as anything else
/// stands between single quotes, and any other value stands as it is.
pub proof fn law_quotes_where_needed(value: Seq<char>)
    ensures
        (value.len() > 0 && forall|i: int|
            0 <= i < value.len() ==> bare_char(#[trigger] value[i])) ==> shell_quoted(value)
            == value,
        !(value.len() > 0 && forall|i: int|
            0 <= i < value.len() ==> bare_char(#[trigger] value[i])) ==> shell_quoted(value).len()
            >= 2 && shell_quoted(value)[0] == '\'' && shell_quoted(value).last() == '\'',
{
}

/// The characters that are kept in the name of a file are the letters and digits of ASCII,
/// the full stop, the underscore and the dash.
pub proof fn law_name_characters(c: char)
    ensures
        name_char(c) <==> {
            let code = c as u32;
            ||| 48 <= code <= 57
            ||| 65 <= code <= 90
            ||| 97 <= code <= 122
            ||| code == 46 || code == 95 || code == 45
        },
{
}

/// What a character of a text becomes in the name of a file.
pub open spec fn as_name_char(c: char) -> char {
    if name_char(c) {
        c
    } else {
        '-'
    }
}

proof fn lemma_leading_dashes_cut(s: Seq<char>)
    ensures
        forall|i: int|
            0 <= i < s.len() - without_leading_dashes(s).len() ==> #[trigger] s[i] == '-',
    decreases s.len(),
{
    if s.len() > 0 && s[0] == '-' {
        let rest = s.drop_first();
        lemma_leading_dashes_cut(rest);
        lemma_without_leading_dashes(rest);
        assert forall|i: int| 0 <= i < s.len() - without_leading_dashes(s).len() implies (
        #[trigger] s[i]) == '-' by {
            if i > 0 {
                assert(rest[i - 1] == s[i]);
            }
        }
    }
}

proof fn lemma_trailing_dashes_cut(s: Seq<char>)
    ensures
        forall|i: int|
            without_trailing_dashes(s).len() <= i < s.len() ==> #[trigger] s[i] == '-',
        without_trailing_dashes(s).len() > 0 ==> without_trailing_dashes(s).last() != '-',
    decreases s.len(),
{
    if s.len() > 0 && s.last() == '-' {
        let front = s.drop_last();
        lemma_trailing_dashes_cut(front);
        assert forall|i: int| without_trailing_dashes(s).len() <= i < s.len() implies (
        #[trigger] s[i]) == '-' by {
            if i < front.len() {
                assert(front[i] == s[i]);
            }
        }
    }
}

/// A text becomes part of a file's name character by character: those that are kept stand
/// for themselves and the others for a dash each. What is cut off in front are dashes, and
/// what is cut off behind are dashes too, unless the part has all the 32 characters that it
/// may have. A shorter part does not end with a dash. `from` tells how many are cut off in
/// front.
pub proof fn law_sanitized_keeps_names(input: Seq<char>) -> (from: int)
    ensures
        0 <= from,
        from + sanitized(input).len() <= input.len(),
        sanitized(input).len() <= 32,
        forall|i: int|
            0 <= i < sanitized(input).len() ==> #[trigger] sanitized(input)[i] == as_name_char(
                input[from + i],
            ),
        forall|i: int| 0 <= i < from ==> as_name_char(#[trigger] input[i]) == '-',
        sanitized(input).len() > 0 ==> sanitized(input)[0] != '-',
        sanitized(input).len() < 32 ==> forall|i: int|
            from + sanitized(input).len() <= i < input.len() ==> as_name_char(#[trigger] input[i])
                == '-',
        0 < sanitized(input).len() < 32 ==> sanitized(input).last() != '-',
{
    let all = with_name_chars(input);
    let front = without_leading_dashes(all);
    let middle = without_trailing_dashes(front);
    lemma_without_leading_dashes(all);
    lemma_leading_dashes_cut(all);
    lemma_without_trailing_dashes(front);
    lemma_trailing_dashes_cut(front);
    let from = all.len() - front.len();
    assert forall|i: int| 0 <= i < all.len() implies #[trigger] all[i] == as_name_char(
        input[i],
    ) by {}
    assert forall|i: int| 0 <= i < sanitized(input).len() implies #[trigger] sanitized(input)[i]
        == as_name_char(input[from + i]) by {
        assert(sanitized(input)[i] == middle[i]);
        assert(middle[i] == front[i]);
        assert(front[i] == all[from + i]);
    }
    assert forall|i: int| 0 <= i < from implies as_name_char(#[trigger] input[i]) == '-' by {
        assert(all[i] == '-');
    }
    if sanitized(input).len() > 0 {
        assert(sanitized(input)[0] == front[0]);
    }
    if sanitized(input).len() < 32 {
        assert(sanitized(input) == middle);
        assert forall|i: int| from + sanitized(input).len() <= i < input.len() implies as_name_char(
            #[trigger] input[i],
        ) == '-' by {
            assert(front[i - from] == all[i]);
            assert(front[i - from] == '-');
        }
    }
    from
}

/// Between the quotes of a quoted value every character stands for itself, but for a single
/// quote, for which the quotes are ended, a quote is escaped, and quotes are begun again.
pub proof fn law_quotes_are_escaped(front: Seq<char>, back: Seq<char>)
    requires
        forall|i: int| 0 <= i < front.len() ==> front[i] != '\'',
    ensures
        !bare_word(front) ==> shell_quoted(front) == seq!['\''] + front + seq!['\''],
        shell_quoted(front + seq!['\''] + back) == seq!['\''] + front + seq!['\'', '\\', '\'', '\'']
            + all_within_quotes(back) + seq!['\''],
        !bare_word(back) ==> shell_quoted(back) == seq!['\''] + all_within_quotes(back) + seq![
            '\'',
        ],
{
    lemma_plain_within_quotes(front);
    let whole = front + seq!['\''] + back;
    assert(whole[front.len() as int] == '\'');
    assert(!bare_char(whole[front.len() as int]));
    lemma_within_quotes_concat(front + seq!['\''], back);
    assert((front + seq!['\'']).drop_last() =~= front);
    assert(all_within_quotes(front + seq!['\'']) =~= front + seq!['\'', '\\', '\'', '\'']);
    assert(shell_quoted(whole) =~= seq!['\''] + front + seq!['\'', '\\', '\'', '\'']
        + all_within_quotes(back) + seq!['\'']);
}

proof fn lemma_plain_within_quotes(value: Seq<char>)
    requires
        forall|i: int| 0 <= i < value.len() ==> value[i] != '\'',
    ensures
        all_within_quotes(value) == value,
    decreases value.len(),
{
    if value.len() == 0 {
        assert(all_within_quotes(value) =~= value);
    } else {
        let front = value.drop_last();
        assert forall|i: int| 0 <= i < front.len() implies front[i] != '\'' by {
            assert(front[i] == value[i]);
        }
        lemma_plain_within_quotes(front);
        assert(front + seq![value.last()] =~= value);
    }
}

proof fn lemma_within_quotes_concat(a: Seq<char>, b: Seq<char>)
    ensures
        all_within_quotes(a + b) == all_within_quotes(a) + all_within_quotes(b),
    decreases b.len(),
{
    if b.len() == 0 {
        assert(a + b =~= a);
        assert(all_within_quotes(a) + all_within_quotes(b) =~= all_within_quotes(a));
    } else {
        assert((a + b).drop_last() =~= a + b.drop_last());
        lemma_within_quotes_concat(a, b.drop_last());
        assert(all_within_quotes(a + b) =~= all_within_quotes(a) + all_within_quotes(b));
    }
}

/// What is quoted reads back as one text only: different values are quoted differently.
pub proof fn law_quoting_is_injective(a: Seq<char>, b: Seq<char>)
    requires
        shell_quoted(a) == shell_quoted(b),
    ensures
        a == b,
{
    law_shell_quote_is_one_word(a);
    law_shell_quote_is_one_word(b);
    assert(seq![a][0] == seq![b][0]);
}

} // verus!
