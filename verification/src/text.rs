//! Text helpers. A piece of text is modelled by its sequence of characters.

use vstd::prelude::*;

verus! {

/// `String::push` appends the character at the end of the string and leaves the rest as it was.
pub assume_specification[ String::push ](s: &mut String, c: char)
    ensures
        final(s)@ == old(s)@.push(c),
;

/// What `char::is_whitespace` answers: the Unicode property `White_Space`.
pub uninterp spec fn char_whitespace(c: char) -> bool;

/// What `char::is_alphanumeric` answers: alphabetic or numeric by Unicode.
pub uninterp spec fn char_alphanumeric(c: char) -> bool;

/// Calls `char::is_whitespace`. Its answer depends on the character alone; the blank and the
/// line feed are white space, letters, digits and the other visible ASCII characters are not.
#[verifier::external_body]
pub(crate) fn is_whitespace(c: char) -> (r: bool)
    ensures
        r == char_whitespace(c),
        c == ' ' || c == '\n' ==> r,
        '!' <= c <= '~' ==> !r,
{
    c.is_whitespace()
}

/// Calls `char::is_alphanumeric`. Its answer depends on the character alone; of the ASCII
/// characters exactly the letters and the digits are alphanumeric.
#[verifier::external_body]
pub(crate) fn is_alphanumeric(c: char) -> (r: bool)
    ensures
        r == char_alphanumeric(c),
        c <= '\x7f' ==> r == ('a' <= c <= 'z' || 'A' <= c <= 'Z' || '0' <= c <= '9'),
{
    c.is_alphanumeric()
}

/// What `char::to_uppercase` yields: the characters of the upper-case form, by Unicode.
pub uninterp spec fn uppercase(c: char) -> Seq<char>;

/// Calls `char::to_uppercase`. The form depends on the character alone; a lower-case ASCII letter
/// becomes the upper-case one, and every other ASCII character stays.
#[verifier::external_body]
pub(crate) fn to_uppercase(c: char) -> (r: String)
    ensures
        r@ == uppercase(c),
        c <= '\x7f' ==> r@ == seq![
            if 'a' <= c <= 'z' {
                (c as u32 - 32) as char
            } else {
                c
            },
        ],
{
    c.to_uppercase().to_string()
}

/// What `str::to_lowercase` yields: the text in lower case, by Unicode.
pub uninterp spec fn lowercase(text: Seq<char>) -> Seq<char>;

/// The lower-case form of an ASCII character.
pub open spec fn ascii_lower(c: char) -> char {
    if 'A' <= c <= 'Z' {
        (c as u32 + 32) as char
    } else {
        c
    }
}

/// Calls `str::to_lowercase`. The form depends on the text alone; of a text of ASCII characters
/// the upper-case letters become the lower-case ones, and the others stay.
#[verifier::external_body]
pub(crate) fn to_lowercase(text: &str) -> (r: String)
    ensures
        r@ == lowercase(text@),
        (forall|i: int| 0 <= i < text@.len() ==> text@[i] <= '\x7f') ==> r@ == text@.map_values(
            |c: char| ascii_lower(c),
        ),
{
    text.to_lowercase()
}

/// The text with its first character in upper case.
pub open spec fn capitalized(s: Seq<char>) -> Seq<char> {
    if s.len() == 0 {
        s
    } else {
        uppercase(s[0]) + s.subrange(1, s.len() as int)
    }
}

/// The text with its first character in upper case.
pub fn capitalize_first(s: &str) -> (r: String)
    ensures
        r@ == capitalized(s@),
{
    let v = chars_of(s);
    if v.len() == 0 {
        return String::new();
    }
    let mut r = to_uppercase(v[0]);
    let rest = string_of_range(&v, 1, v.len());
    r.append(rest.as_str());
    r
}

/// The characters of a vector of strings, one sequence per string.
pub open spec fn texts(v: Seq<String>) -> Seq<Seq<char>> {
    v.map_values(|s: String| s@)
}

/// The text of an optional string.
pub open spec fn opt_text(s: Option<String>) -> Option<Seq<char>> {
    match s {
        Some(s) => Some(s@),
        None => None,
    }
}

/// Whether two pieces of text are the same.
pub fn same_text(a: &str, b: &str) -> (r: bool)
    ensures
        r == (a@ == b@),
{
    a.to_owned() == b.to_owned()
}

/// Whether two optional strings are both absent or hold the same text.
pub fn same_opt_text(a: &Option<String>, b: &Option<String>) -> (r: bool)
    ensures
        r == (opt_text(*a) == opt_text(*b)),
{
    match (a, b) {
        (Some(a), Some(b)) => same_text(a.as_str(), b.as_str()),
        (None, None) => true,
        _ => false,
    }
}

/// The characters of a text, in order.
pub fn chars_of(s: &str) -> (v: Vec<char>)
    ensures
        v@ == s@,
{
    let mut v: Vec<char> = Vec::new();
    for c in it: s.chars()
        invariant
            v@ == it.seq().take(it.index() as int),
            it.seq() == s@,
    {
        v.push(c);
    }
    v
}

/// The text of a range of characters.
pub fn string_of_range(v: &Vec<char>, start: usize, end: usize) -> (s: String)
    requires
        start <= end <= v@.len(),
    ensures
        s@ == v@.subrange(start as int, end as int),
{
    let mut s = String::new();
    let mut i: usize = start;
    while i < end
        invariant
            start <= i <= end <= v@.len(),
            s@ == v@.subrange(start as int, i as int),
        decreases end - i,
    {
        s.push(v[i]);
        i += 1;
    }
    s
}

/// The text of all the characters.
pub fn string_of(v: &Vec<char>) -> (s: String)
    ensures
        s@ == v@,
{
    string_of_range(v, 0, v.len())
}

/// Two texts, one after the other.
pub fn concat2(a: &str, b: &str) -> (s: String)
    ensures
        s@ == a@ + b@,
{
    let mut s = a.to_owned();
    s.append(b);
    s
}

/// Three texts, one after the other.
pub fn concat3(a: &str, b: &str, c: &str) -> (s: String)
    ensures
        s@ == a@ + b@ + c@,
{
    let mut s = a.to_owned();
    s.append(b);
    s.append(c);
    s
}

/// The decimal digit of a number below ten.
pub open spec fn digit(n: nat) -> char {
    (('0' as nat) + n % 10) as char
}

/// The decimal numeral of a number, without leading zeros.
pub open spec fn decimal(n: nat) -> Seq<char>
    decreases n,
{
    if n < 10 {
        seq![digit(n)]
    } else {
        decimal(n / 10).push(digit(n))
    }
}

fn digit_char(n: u64) -> (c: char)
    requires
        n < 10,
    ensures
        c == digit(n as nat),
{
    (48u8 + n as u8) as char
}

/// Appends the decimal numeral of `n`.
pub fn push_decimal(s: &mut String, n: u64)
    ensures
        final(s)@ == old(s)@ + decimal(n as nat),
    decreases n,
{
    if n >= 10 {
        push_decimal(s, n / 10);
    }
    s.push(digit_char(n % 10));
    assert(s@ =~= old(s)@ + decimal(n as nat));
}

/// The decimal numeral of `n` as a text of its own.
pub fn decimal_string(n: u64) -> (s: String)
    ensures
        s@ == decimal(n as nat),
{
    let mut s = String::new();
    push_decimal(&mut s, n);
    s
}

/// Whether `s` begins with `prefix`.
pub open spec fn has_prefix(s: Seq<char>, prefix: Seq<char>) -> bool {
    prefix.len() <= s.len() && s.subrange(0, prefix.len() as int) == prefix
}

/// Whether `s` ends with `suffix`.
pub open spec fn has_suffix(s: Seq<char>, suffix: Seq<char>) -> bool {
    suffix.len() <= s.len() && s.subrange(s.len() - suffix.len(), s.len() as int) == suffix
}

/// Whether the characters of `part` stand in `v` from `at` on.
pub fn range_matches(v: &Vec<char>, at: usize, part: &Vec<char>) -> (r: bool)
    requires
        at + part@.len() <= v@.len(),
    ensures
        r == (v@.subrange(at as int, at + part@.len()) == part@),
{
    let len: usize = v.len();
    let mut i: usize = 0;
    while i < part.len()
        invariant
            at + part@.len() <= v@.len() == len,
            i <= part@.len(),
            forall|k: int| 0 <= k < i ==> v@[at + k] == part@[k],
        decreases part@.len() - i,
    {
        if v[at + i] != part[i] {
            proof {
                let sub = v@.subrange(at as int, at + part@.len());
                assert(sub[i as int] != part@[i as int]);
            }
            return false;
        }
        i += 1;
    }
    assert(v@.subrange(at as int, at + part@.len()) =~= part@);
    true
}

/// Whether the text begins with `prefix`.
pub fn starts_with(s: &str, prefix: &str) -> (r: bool)
    ensures
        r == has_prefix(s@, prefix@),
{
    let v = chars_of(s);
    let p = chars_of(prefix);
    p.len() <= v.len() && range_matches(&v, 0, &p)
}

/// Whether the text ends with `suffix`.
pub fn ends_with(s: &str, suffix: &str) -> (r: bool)
    ensures
        r == has_suffix(s@, suffix@),
{
    let v = chars_of(s);
    let p = chars_of(suffix);
    p.len() <= v.len() && range_matches(&v, v.len() - p.len(), &p)
}

/// What follows `prefix`, where the text begins with it.
pub fn strip_prefix(s: &str, prefix: &str) -> (r: Option<String>)
    ensures
        match r {
            Some(rest) => has_prefix(s@, prefix@) && rest@ == s@.subrange(
                prefix@.len() as int,
                s@.len() as int,
            ),
            None => !has_prefix(s@, prefix@),
        },
{
    let v = chars_of(s);
    let p = chars_of(prefix);
    if p.len() <= v.len() && range_matches(&v, 0, &p) {
        Some(string_of_range(&v, p.len(), v.len()))
    } else {
        None
    }
}

/// Whether every character of the text is white space (so is the empty text).
pub open spec fn blank(s: Seq<char>) -> bool {
    forall|i: int| 0 <= i < s.len() ==> char_whitespace(#[trigger] s[i])
}

/// Whether trimming would leave nothing of the text.
pub fn is_blank(s: &str) -> (r: bool)
    ensures
        r == blank(s@),
{
    let v = chars_of(s);
    let mut i: usize = 0;
    while i < v.len()
        invariant
            v@ == s@,
            i <= v@.len(),
            forall|k: int| 0 <= k < i ==> char_whitespace(#[trigger] v@[k]),
        decreases v@.len() - i,
    {
        if !is_whitespace(v[i]) {
            return false;
        }
        i += 1;
    }
    true
}

/// The text without the white space at its beginning.
pub open spec fn trimmed_start(s: Seq<char>) -> Seq<char>
    decreases s.len(),
{
    if s.len() > 0 && char_whitespace(s[0]) {
        trimmed_start(s.subrange(1, s.len() as int))
    } else {
        s
    }
}

/// The text without the white space at its end.
pub open spec fn trimmed_end(s: Seq<char>) -> Seq<char>
    decreases s.len(),
{
    if s.len() > 0 && char_whitespace(s.last()) {
        trimmed_end(s.drop_last())
    } else {
        s
    }
}

/// The text without the white space at its beginning.
pub fn trim_start(s: &str) -> (r: String)
    ensures
        r@ == trimmed_start(s@),
{
    let v = chars_of(s);
    let mut i: usize = 0;
    assert(v@.subrange(0, v@.len() as int) =~= v@);
    while i < v.len() && is_whitespace(v[i])
        invariant
            v@ == s@,
            i <= v@.len(),
            trimmed_start(s@) == trimmed_start(v@.subrange(i as int, v@.len() as int)),
        ensures
            i <= v@.len(),
            trimmed_start(s@) == v@.subrange(i as int, v@.len() as int),
        decreases v@.len() - i,
    {
        proof {
            let rest = v@.subrange(i as int, v@.len() as int);
            assert(rest.subrange(1, rest.len() as int) =~= v@.subrange(i + 1, v@.len() as int));
        }
        i += 1;
    }
    string_of_range(&v, i, v.len())
}

/// The text without the white space at its end.
pub fn trim_end(s: &str) -> (r: String)
    ensures
        r@ == trimmed_end(s@),
{
    let v = chars_of(s);
    let mut i: usize = v.len();
    assert(v@.subrange(0, v@.len() as int) =~= v@);
    while i > 0 && is_whitespace(v[i - 1])
        invariant
            v@ == s@,
            i <= v@.len(),
            trimmed_end(s@) == trimmed_end(v@.subrange(0, i as int)),
        ensures
            i <= v@.len(),
            trimmed_end(s@) == v@.subrange(0, i as int),
        decreases i,
    {
        proof {
            assert(v@.subrange(0, i as int).drop_last() =~= v@.subrange(0, i - 1));
        }
        i -= 1;
    }
    string_of_range(&v, 0, i)
}


/// The first place at or after `from` where `part` stands in `s`.
pub open spec fn first_match(s: Seq<char>, part: Seq<char>, from: int) -> Option<int>
    decreases s.len() - from + 1,
{
    if from < 0 || from + part.len() > s.len() {
        None
    } else if s.subrange(from, from + part.len()) == part {
        Some(from)
    } else {
        first_match(s, part, from + 1)
    }
}

/// The first place at or after `from` where `part` stands in `v`.
pub fn find_from(v: &Vec<char>, part: &Vec<char>, from: usize) -> (r: Option<usize>)
    ensures
        match r {
            Some(at) => first_match(v@, part@, from as int) == Some(at as int) && from <= at && at
                + part@.len() <= v@.len(),
            None => first_match(v@, part@, from as int) is None,
        },
{
    let mut i: usize = from;
    let len: usize = v.len();
    let part_len: usize = part.len();
    while i <= len && part_len <= len - i
        invariant
            from <= i,
            i <= len || i == from,
            len == v@.len(),
            part_len == part@.len(),
            first_match(v@, part@, from as int) == first_match(v@, part@, i as int),
        decreases len + 1 - i,
    {
        if range_matches(v, i, part) {
            return Some(i);
        }
        if i == len {
            assert(first_match(v@, part@, i + 1) is None);
            return None;
        }
        i += 1;
    }
    None
}

/// A line without the carriage return that ends it.
pub open spec fn without_cr(line: Seq<char>) -> Seq<char> {
    if line.len() > 0 && line.last() == '\r' {
        line.drop_last()
    } else {
        line
    }
}

/// The place of the first line feed, or the length where there is none.
pub open spec fn line_feed(s: Seq<char>) -> int
    decreases s.len(),
{
    if s.len() == 0 || s[0] == '\n' {
        0
    } else {
        1 + line_feed(s.subrange(1, s.len() as int))
    }
}

/// The lines of a text. A line feed, or a carriage return and a line feed, ends a line; the last
/// line may end with the text.
pub open spec fn text_lines(s: Seq<char>) -> Seq<Seq<char>>
    decreases s.len(),
{
    let e = line_feed(s);
    if s.len() == 0 {
        Seq::empty()
    } else if e < 0 || e >= s.len() {
        seq![s]
    } else {
        seq![without_cr(s.subrange(0, e))] + text_lines(s.subrange(e + 1, s.len() as int))
    }
}

proof fn lemma_line_feed(s: Seq<char>, e: int)
    requires
        0 <= e <= s.len(),
        e < s.len() ==> s[e] == '\n',
        forall|k: int| 0 <= k < e ==> s[k] != '\n',
    ensures
        line_feed(s) == e,
    decreases s.len(),
{
    if s.len() > 0 && s[0] != '\n' {
        let rest = s.subrange(1, s.len() as int);
        assert forall|k: int| 0 <= k < e - 1 implies rest[k] != '\n' by {
            assert(s[k + 1] != '\n');
        }
        lemma_line_feed(rest, e - 1);
    }
}

/// The lines of a text.
pub fn lines_of(s: &str) -> (lines: Vec<String>)
    ensures
        lines.deep_view() == text_lines(s@),
{
    let v = chars_of(s);
    let mut lines: Vec<String> = Vec::new();
    let mut start: usize = 0;
    assert(v@.subrange(0, v@.len() as int) =~= v@);
    assert(lines.deep_view() + text_lines(v@) =~= text_lines(v@));
    while start < v.len()
        invariant
            v@ == s@,
            start <= v@.len(),
            lines.deep_view() + text_lines(v@.subrange(start as int, v@.len() as int))
                == text_lines(v@),
        decreases v@.len() - start,
    {
        let mut end: usize = start;
        while end < v.len() && v[end] != '\n'
            invariant
                start <= end <= v@.len(),
                forall|k: int| start <= k < end ==> v@[k] != '\n',
            ensures
                start <= end <= v@.len(),
                forall|k: int| start <= k < end ==> v@[k] != '\n',
                end < v@.len() ==> v@[end as int] == '\n',
            decreases v@.len() - end,
        {
            end += 1;
        }
        let ghost rest = v@.subrange(start as int, v@.len() as int);
        let ghost before = lines.deep_view();
        proof {
            assert forall|k: int| 0 <= k < end - start implies rest[k] != '\n' by {
                assert(v@[start + k] != '\n');
            }
            lemma_line_feed(rest, end - start);
        }
        if end == v.len() {
            lines.push(string_of_range(&v, start, end));
            proof {
                assert(lines.deep_view() =~= before.push(rest));
                assert(text_lines(rest) == seq![rest]);
                assert(v@.subrange(end as int, v@.len() as int) =~= Seq::empty());
                assert(before + text_lines(rest) =~= lines.deep_view() + Seq::<
                    Seq<char>,
                >::empty());
            }
            start = end;
        } else {
            let last: usize = if end > start && v[end - 1] == '\r' {
                end - 1
            } else {
                end
            };
            lines.push(string_of_range(&v, start, last));
            proof {
                let line = rest.subrange(0, end - start);
                assert(v@.subrange(start as int, last as int) =~= without_cr(line));
                assert(lines.deep_view() =~= before.push(without_cr(line)));
                assert(rest.subrange(end - start + 1, rest.len() as int) =~= v@.subrange(
                    end + 1,
                    v@.len() as int,
                ));
                assert(before + text_lines(rest) =~= lines.deep_view() + text_lines(
                    v@.subrange(end + 1, v@.len() as int),
                ));
            }
            start = end + 1;
        }
    }
    assert(v@.subrange(start as int, v@.len() as int) =~= Seq::empty());
    assert(lines.deep_view() + Seq::<Seq<char>>::empty() =~= lines.deep_view());
    lines
}

/// Texts with a separator between them.
pub open spec fn joined(parts: Seq<Seq<char>>, separator: Seq<char>) -> Seq<char>
    decreases parts.len(),
{
    if parts.len() == 0 {
        Seq::empty()
    } else if parts.len() == 1 {
        parts[0]
    } else {
        joined(parts.drop_last(), separator) + separator + parts.last()
    }
}

/// Texts with a separator between them.
pub fn join(parts: &Vec<String>, separator: &str) -> (r: String)
    ensures
        r@ == joined(parts.deep_view(), separator@),
{
    let mut r = String::new();
    let mut i: usize = 0;
    let ghost all = parts.deep_view();
    while i < parts.len()
        invariant
            all == parts.deep_view(),
            i <= parts@.len(),
            r@ == joined(all.take(i as int), separator@),
        decreases parts@.len() - i,
    {
        proof {
            assert(all.take(i + 1).drop_last() =~= all.take(i as int));
            assert(all.take(i + 1).last() == parts@[i as int]@);
        }
        if i > 0 {
            r.append(separator);
        }
        r.append(parts[i].as_str());
        assert(r@ =~= joined(all.take(i + 1), separator@));
        i += 1;
    }
    assert(all.take(i as int) =~= all);
    r
}

/// The first place where a part stands in a text is found, and none where it stands nowhere.
pub proof fn first_match_is_the_first(s: Seq<char>, part: Seq<char>, from: int, at: int)
    requires
        0 <= from <= at,
        forall|b: int|
            from <= b < at && b + part.len() <= s.len() ==> (#[trigger] s.subrange(
                b,
                b + part.len(),
            )) != part,
        at + part.len() <= s.len() ==> s.subrange(at, at + part.len()) == part,
    ensures
        first_match(s, part, from) == (if at + part.len() <= s.len() {
            Some(at)
        } else {
            None
        }),
    decreases at - from,
{
    if from < at && from + part.len() <= s.len() {
        first_match_is_the_first(s, part, from + 1, at);
    }
}

proof fn lemma_no_line_feed(s: Seq<char>, rest: Seq<char>)
    requires
        !s.contains('\n'),
        rest.len() > 0 ==> rest[0] == '\n',
    ensures
        line_feed(s + rest) == s.len(),
    decreases s.len(),
{
    if s.len() > 0 {
        let tail = s.subrange(1, s.len() as int);
        assert(s.contains(s[0]));
        assert forall|c: char| tail.contains(c) implies s.contains(c) by {
            let i = choose|i: int| 0 <= i < tail.len() && tail[i] == c;
            assert(s[i + 1] == c);
        }
        lemma_no_line_feed(tail, rest);
        assert((s + rest).subrange(1, (s + rest).len() as int) =~= tail + rest);
    }
}

/// A line ends at the first line feed, without a carriage return before that; the other lines are
/// those of what follows. A text without a line feed is one line.
pub proof fn lines_end_at_line_feeds(line: Seq<char>, rest: Seq<char>)
    requires
        !line.contains('\n'),
    ensures
        text_lines(line + seq!['\n'] + rest) == seq![
            if line.len() > 0 && line.last() == '\r' {
                line.drop_last()
            } else {
                line
            },
        ] + text_lines(rest),
        line.len() > 0 ==> text_lines(line) == seq![line],
{
    let all = line + seq!['\n'] + rest;
    lemma_no_line_feed(line, seq!['\n'] + rest);
    assert(all =~= line + (seq!['\n'] + rest));
    assert(all.subrange(0, line.len() as int) =~= line);
    assert(all.subrange(line.len() + 1int, all.len() as int) =~= rest);
    lemma_no_line_feed(line, Seq::empty());
    assert(line + Seq::<char>::empty() =~= line);
}

/// Lines that are put together with line feeds can be taken apart again.
pub proof fn joined_lines_can_be_taken_apart(lines: Seq<Seq<char>>)
    requires
        lines.len() > 0,
        lines.last().len() > 0,
        forall|i: int|
            0 <= i < lines.len() ==> !(#[trigger] lines[i]).contains('\n') && !lines[i].contains(
                '\r',
            ),
    ensures
        text_lines(joined(lines, "\n"@)) == lines,
    decreases lines.len(),
{
    reveal_strlit("\n");
    assert(lines.last() == lines[lines.len() - 1]);
    if lines.len() == 1 {
        lines_end_at_line_feeds(lines[0], Seq::empty());
        assert(lines =~= seq![lines[0]]);
    } else {
        let rest = lines.subrange(1, lines.len() as int);
        lemma_joined_first(lines, "\n"@);
        assert(rest.last() == lines.last());
        assert forall|i: int| 0 <= i < rest.len() implies !(#[trigger] rest[i]).contains('\n')
            && !rest[i].contains('\r') by {
            assert(rest[i] == lines[i + 1]);
        }
        joined_lines_can_be_taken_apart(rest);
        assert("\n"@ =~= seq!['\n']);
        if lines[0].len() > 0 {
            assert(lines[0].contains(lines[0].last()));
        }
        lines_end_at_line_feeds(lines[0], joined(rest, "\n"@));
        assert(lines =~= seq![lines[0]] + rest);
    }
}

proof fn lemma_joined_first(parts: Seq<Seq<char>>, separator: Seq<char>)
    requires
        parts.len() > 1,
    ensures
        joined(parts, separator) == parts[0] + separator + joined(
            parts.subrange(1, parts.len() as int),
            separator,
        ),
    decreases parts.len(),
{
    let rest = parts.subrange(1, parts.len() as int);
    if parts.len() == 2 {
        assert(parts.drop_last() =~= seq![parts[0]]);
        assert(rest =~= seq![parts[1]]);
        reveal_with_fuel(joined, 2);
    } else {
        lemma_joined_first(parts.drop_last(), separator);
        assert(parts.drop_last().subrange(1, parts.len() - 1) =~= rest.drop_last());
        assert(joined(parts, separator) =~= parts[0] + separator + joined(rest, separator));
    }
}

/// A text is the white space at its beginning, what is left of it, and nothing else; what is left
/// does not begin with white space.
pub proof fn trimming_takes_the_outer_white_space(s: Seq<char>)
    ensures
        ({
            let left = trimmed_start(s);
            let n = s.len() - left.len();
            &&& 0 <= n
            &&& s.skip(n) == left
            &&& blank(s.take(n))
            &&& left.len() > 0 ==> !char_whitespace(left[0])
        }),
        ({
            let left = trimmed_end(s);
            &&& left.len() <= s.len()
            &&& s.take(left.len() as int) == left
            &&& blank(s.skip(left.len() as int))
            &&& left.len() > 0 ==> !char_whitespace(left.last())
        }),
{
    lemma_trimmed_start(s);
    lemma_trimmed_end(s);
}

proof fn lemma_trimmed_start(s: Seq<char>)
    ensures
        trimmed_start(s).len() <= s.len(),
        s.skip(s.len() - trimmed_start(s).len()) == trimmed_start(s),
        blank(s.take(s.len() - trimmed_start(s).len())),
        trimmed_start(s).len() > 0 ==> !char_whitespace(trimmed_start(s)[0]),
    decreases s.len(),
{
    if s.len() > 0 && char_whitespace(s[0]) {
        let rest = s.subrange(1, s.len() as int);
        lemma_trimmed_start(rest);
        let n = s.len() - trimmed_start(rest).len();
        assert(s.skip(n) =~= rest.skip(n - 1));
        assert forall|i: int| 0 <= i < n implies char_whitespace(#[trigger] s.take(n)[i]) by {
            if i > 0 {
                assert(rest.take(n - 1)[i - 1] == s.take(n)[i]);
            }
        }
    } else {
        assert(s.skip(0) =~= s);
    }
}

proof fn lemma_trimmed_end(s: Seq<char>)
    ensures
        trimmed_end(s).len() <= s.len(),
        s.take(trimmed_end(s).len() as int) == trimmed_end(s),
        blank(s.skip(trimmed_end(s).len() as int)),
        trimmed_end(s).len() > 0 ==> !char_whitespace(trimmed_end(s).last()),
    decreases s.len(),
{
    if s.len() > 0 && char_whitespace(s.last()) {
        let front = s.drop_last();
        lemma_trimmed_end(front);
        let n = trimmed_end(front).len() as int;
        assert(s.take(n) =~= front.take(n));
        assert forall|i: int| 0 <= i < s.skip(n).len() implies char_whitespace(
            #[trigger] s.skip(n)[i],
        ) by {
            if n + i < front.len() {
                assert(front.skip(n)[i] == s.skip(n)[i]);
            }
        }
    } else {
        assert(s.take(s.len() as int) =~= s);
    }
}

/// A text in which only the first character is put into upper case keeps the others.
pub proof fn capitals_change_the_first_character(s: Seq<char>)
    requires
        s.len() > 0,
    ensures
        capitalized(s).len() == uppercase(s[0]).len() + s.len() - 1,
        capitalized(s).take(uppercase(s[0]).len() as int) == uppercase(s[0]),
        capitalized(s).skip(uppercase(s[0]).len() as int) == s.skip(1),
{
    assert(capitalized(s).take(uppercase(s[0]).len() as int) =~= uppercase(s[0]));
    assert(capitalized(s).skip(uppercase(s[0]).len() as int) =~= s.skip(1));
}

/// The number that decimal digits stand for.
pub open spec fn number_of(digits: Seq<char>) -> int
    decreases digits.len(),
{
    if digits.len() == 0 {
        0
    } else {
        10 * number_of(digits.drop_last()) + (digits.last() as int - 48)
    }
}

/// A numeral stands for its number. It holds digits alone, and begins with a zero only where the
/// number is zero.
pub proof fn numerals_stand_for_their_number(n: nat)
    ensures
        number_of(decimal(n)) == n,
        decimal(n).len() > 0,
        n > 0 ==> decimal(n)[0] != '0',
        forall|i: int| 0 <= i < decimal(n).len() ==> '0' <= (#[trigger] decimal(n)[i]) <= '9',
    decreases n,
{
    if n < 10 {
        reveal_with_fuel(number_of, 2);
        assert(decimal(n).drop_last() =~= Seq::empty());
    } else {
        numerals_stand_for_their_number(n / 10);
        assert(decimal(n).drop_last() =~= decimal(n / 10));
        assert(decimal(n)[0] == decimal(n / 10)[0]);
        assert forall|i: int| 0 <= i < decimal(n).len() implies '0' <= (#[trigger] decimal(n)[i])
            <= '9' by {
            if i < decimal(n / 10).len() {
                assert(decimal(n)[i] == decimal(n / 10)[i]);
            }
        }
    }
}

} // verus!
