//! The text layer: characters, whitespace-separated tokens, decimal integers
//! and lines.
//!
//! Every function here is specified over `Seq<char>`, the view of a string.

use vstd::prelude::*;

verus! {

/// Whether `c` separates tokens: the characters with the Unicode property
/// `White_Space`.
pub open spec fn is_whitespace(c: char) -> bool {
    ||| '\u{9}' <= c <= '\u{d}'
    ||| c == ' '
    ||| c == '\u{85}'
    ||| c == '\u{a0}'
    ||| c == '\u{1680}'
    ||| '\u{2000}' <= c <= '\u{200a}'
    ||| c == '\u{2028}'
    ||| c == '\u{2029}'
    ||| c == '\u{202f}'
    ||| c == '\u{205f}'
    ||| c == '\u{3000}'
}

/// The first position at or after `from` that holds no whitespace, or the
/// length of `s` if only whitespace is left.
pub open spec fn token_start(s: Seq<char>, from: int) -> int
    decreases s.len() - from,
{
    if 0 <= from < s.len() && is_whitespace(s[from]) {
        token_start(s, from + 1)
    } else {
        from
    }
}

/// The first position at or after `from` that holds whitespace, or the length
/// of `s` if none is left.
pub open spec fn token_end(s: Seq<char>, from: int) -> int
    decreases s.len() - from,
{
    if 0 <= from < s.len() && !is_whitespace(s[from]) {
        token_end(s, from + 1)
    } else {
        from
    }
}

/// The tokens of `s` that begin at or after `from`: the maximal runs of
/// characters that are not whitespace, in the order in which they occur.
pub open spec fn tokens_from(s: Seq<char>, from: int) -> Seq<Seq<char>>
    decreases s.len() - from,
    via tokens_from_terminates
{
    let start = token_start(s, from);
    if 0 <= from && start < s.len() {
        let end = token_end(s, start);
        seq![s.subrange(start, end)] + tokens_from(s, end)
    } else {
        Seq::empty()
    }
}

#[via_fn]
proof fn tokens_from_terminates(s: Seq<char>, from: int) {
    if 0 <= from <= s.len() {
        lemma_token_start(s, from);
        let start = token_start(s, from);
        if start < s.len() {
            lemma_token_end(s, start + 1);
        }
    }
}

/// All the tokens of `s`.
pub open spec fn tokens(s: Seq<char>) -> Seq<Seq<char>> {
    tokens_from(s, 0)
}

/// `token_start` skips whitespace and nothing else.
pub proof fn lemma_token_start(s: Seq<char>, from: int)
    requires
        0 <= from <= s.len(),
    ensures
        from <= token_start(s, from) <= s.len(),
        token_start(s, from) < s.len() ==> !is_whitespace(s[token_start(s, from)]),
        forall|i: int| from <= i < token_start(s, from) ==> is_whitespace(#[trigger] s[i]),
    decreases s.len() - from,
{
    if from < s.len() && is_whitespace(s[from]) {
        lemma_token_start(s, from + 1);
    }
}

/// `token_end` skips what is not whitespace and nothing else.
pub proof fn lemma_token_end(s: Seq<char>, from: int)
    requires
        0 <= from <= s.len(),
    ensures
        from <= token_end(s, from) <= s.len(),
        token_end(s, from) < s.len() ==> is_whitespace(s[token_end(s, from)]),
        forall|i: int| from <= i < token_end(s, from) ==> !is_whitespace(#[trigger] s[i]),
    decreases s.len() - from,
{
    if from < s.len() && !is_whitespace(s[from]) {
        lemma_token_end(s, from + 1);
    }
}

/// A position that is reached over whitespace alone and holds none is where
/// the next token starts.
pub proof fn lemma_token_start_is(s: Seq<char>, from: int, start: int)
    requires
        0 <= from <= start <= s.len(),
        forall|i: int| from <= i < start ==> is_whitespace(#[trigger] s[i]),
        start < s.len() ==> !is_whitespace(s[start]),
    ensures
        token_start(s, from) == start,
    decreases start - from,
{
    if from < start {
        lemma_token_start_is(s, from + 1, start);
    }
}

/// A position that is reached over no whitespace and holds some is where the
/// token ends.
pub proof fn lemma_token_end_is(s: Seq<char>, from: int, end: int)
    requires
        0 <= from <= end <= s.len(),
        forall|i: int| from <= i < end ==> !is_whitespace(#[trigger] s[i]),
        end < s.len() ==> is_whitespace(s[end]),
    ensures
        token_end(s, from) == end,
    decreases end - from,
{
    if from < end {
        lemma_token_end_is(s, from + 1, end);
    }
}

/// Whether `s` can stand as one token: it is not empty and holds no
/// whitespace.
pub open spec fn is_token(s: Seq<char>) -> bool {
    &&& s.len() > 0
    &&& forall|i: int| 0 <= i < s.len() ==> !is_whitespace(#[trigger] s[i])
}

/// Behind a prefix, tokens start where they start without it.
pub proof fn lemma_token_start_shift(a: Seq<char>, b: Seq<char>, k: int)
    requires
        0 <= k <= b.len(),
    ensures
        token_start(a + b, a.len() + k) == a.len() + token_start(b, k),
    decreases b.len() - k,
{
    if k < b.len() {
        assert((a + b)[a.len() + k] == b[k]);
        if is_whitespace(b[k]) {
            lemma_token_start_shift(a, b, k + 1);
        }
    }
}

/// Behind a prefix, tokens end where they end without it.
pub proof fn lemma_token_end_shift(a: Seq<char>, b: Seq<char>, k: int)
    requires
        0 <= k <= b.len(),
    ensures
        token_end(a + b, a.len() + k) == a.len() + token_end(b, k),
    decreases b.len() - k,
{
    if k < b.len() {
        assert((a + b)[a.len() + k] == b[k]);
        if !is_whitespace(b[k]) {
            lemma_token_end_shift(a, b, k + 1);
        }
    }
}

/// The tokens behind a prefix are the tokens of what follows it.
pub proof fn lemma_tokens_from_shift(a: Seq<char>, b: Seq<char>, k: int)
    requires
        0 <= k <= b.len(),
    ensures
        tokens_from(a + b, a.len() + k) == tokens_from(b, k),
    decreases b.len() - k,
{
    lemma_token_start_shift(a, b, k);
    lemma_token_start(b, k);
    let start = token_start(b, k);
    if start < b.len() {
        lemma_token_end_shift(a, b, start);
        lemma_token_end(b, start + 1);
        let end = token_end(b, start);
        lemma_tokens_from_shift(a, b, end);
        assert((a + b).subrange(a.len() + start, a.len() + end) =~= b.subrange(start, end));
    }
}

/// A string that can stand as one token is its own and only token.
pub proof fn lemma_tokens_of_token(field: Seq<char>)
    requires
        is_token(field),
    ensures
        tokens(field) == seq![field],
{
    lemma_token_start_is(field, 0, 0);
    lemma_token_end_is(field, 0, field.len() as int);
    assert(field.subrange(0, field.len() as int) =~= field);
    assert(tokens_from(field, field.len() as int) =~= Seq::<Seq<char>>::empty());
    assert(tokens(field) =~= seq![field]);
}

/// A token, one space and more text: the tokens are that token and those of
/// the text.
pub proof fn lemma_tokens_of_token_and_rest(field: Seq<char>, rest: Seq<char>)
    requires
        is_token(field),
    ensures
        tokens(field + seq![' '] + rest) == seq![field] + tokens(rest),
{
    let head = field + seq![' '];
    let line = head + rest;
    lemma_token_start_is(line, 0, 0);
    lemma_token_end_is(line, 0, field.len() as int);
    assert(line.subrange(0, field.len() as int) =~= field);
    // From the space on, the tokens are those of `rest`.
    let end = field.len() as int;
    lemma_tokens_from_shift(head, rest, 0);
    assert(token_start(line, end) == token_start(line, end + 1));
    assert(tokens_from(line, end) == tokens_from(line, end + 1));
}

/// Tests a character for `is_whitespace`.
pub fn char_is_whitespace(c: char) -> (b: bool)
    ensures
        b == is_whitespace(c),
{
    ('\u{9}' <= c && c <= '\u{d}') || c == ' ' || c == '\u{85}' || c == '\u{a0}' || c
        == '\u{1680}' || ('\u{2000}' <= c && c <= '\u{200a}') || c == '\u{2028}' || c
        == '\u{2029}' || c == '\u{202f}' || c == '\u{205f}' || c == '\u{3000}'
}

/// The characters of a string, in a vector.
pub fn chars_of(s: &str) -> (chars: Vec<char>)
    ensures
        chars@ == s@,
{
    let mut chars: Vec<char> = Vec::new();
    for c in it: s.chars()
        invariant
            chars@ == it.seq().take(it.index() as int),
            it.seq() == s@,
    {
        chars.push(c);
    }
    chars
}

/// Finds the next token of `line` at or after `from`: its first position and
/// the position just behind it.
pub fn next_token(line: &[char], from: usize) -> (span: Option<(usize, usize)>)
    ensures
        match span {
            Some((start, end)) => {
                &&& from <= start < end <= line@.len()
                &&& start == token_start(line@, from as int)
                &&& end == token_end(line@, start as int)
                &&& tokens_from(line@, from as int) == seq![
                    line@.subrange(start as int, end as int),
                ] + tokens_from(line@, end as int)
            },
            None => tokens_from(line@, from as int) == Seq::<Seq<char>>::empty(),
        },
{
    let mut start: usize = from;
    while start < line.len() && char_is_whitespace(line[start])
        invariant
            from <= start,
            start <= line@.len() || start == from,
            token_start(line@, from as int) == token_start(line@, start as int),
        decreases line@.len() - start,
    {
        start = start + 1;
    }
    if start >= line.len() {
        return None;
    }
    let mut end: usize = start + 1;
    while end < line.len() && !char_is_whitespace(line[end])
        invariant
            start < end <= line@.len(),
            token_end(line@, start as int) == token_end(line@, end as int),
        decreases line@.len() - end,
    {
        end = end + 1;
    }
    Some((start, end))
}

/// Whether `c` is one of the ten decimal digits.
pub open spec fn is_digit(c: char) -> bool {
    '0' <= c <= '9'
}

/// The number that the digit `c` stands for.
pub open spec fn digit_value(c: char) -> int {
    c as int - '0' as int
}

/// The digit that stands for `d`, for `d` below ten.
pub open spec fn digit_char(d: int) -> char {
    (d + '0' as int) as char
}

/// The number that a string of digits denotes in base ten; 0 for the empty
/// string.
pub open spec fn digits_value(s: Seq<char>) -> int
    decreases s.len(),
{
    if s.len() == 0 {
        0
    } else {
        10 * digits_value(s.drop_last()) + digit_value(s.last())
    }
}

/// Whether `s` is made of digits alone, and of one at least.
pub open spec fn is_digits(s: Seq<char>) -> bool {
    &&& s.len() > 0
    &&& forall|i: int| 0 <= i < s.len() ==> is_digit(#[trigger] s[i])
}

/// The integer that `s` denotes: an optional sign, `+` or `-`, and then one
/// digit or more. Anything else denotes none.
pub open spec fn integer_value(s: Seq<char>) -> Option<int> {
    if s.len() > 0 && s[0] == '-' {
        if is_digits(s.skip(1)) {
            Some(-digits_value(s.skip(1)))
        } else {
            None
        }
    } else if s.len() > 0 && s[0] == '+' {
        if is_digits(s.skip(1)) {
            Some(digits_value(s.skip(1)))
        } else {
            None
        }
    } else if is_digits(s) {
        Some(digits_value(s))
    } else {
        None
    }
}

/// The coordinate that `s` denotes: its integer, if that fits the coordinate
/// type.
pub open spec fn coordinate_value(s: Seq<char>) -> Option<int> {
    match integer_value(s) {
        Some(n) if i16::MIN <= n <= i16::MAX => Some(n),
        _ => None,
    }
}

/// The digits of `n` in base ten, without leading zeros.
pub open spec fn digits(n: nat) -> Seq<char>
    decreases n,
{
    if n < 10 {
        seq![digit_char(n as int)]
    } else {
        digits(n / 10).push(digit_char(n as int % 10))
    }
}

/// The decimal numeral of `n`: a `-` if it is negative, and its digits.
pub open spec fn decimal(n: int) -> Seq<char> {
    if n < 0 {
        seq!['-'] + digits((-n) as nat)
    } else {
        digits(n as nat)
    }
}

/// Whether `s` is a numeral as `decimal` writes it: digits without leading
/// zeros, behind a `-` if the number is negative.
pub open spec fn is_canonical_numeral(s: Seq<char>) -> bool {
    let body = if s.len() > 0 && s[0] == '-' {
        s.skip(1)
    } else {
        s
    };
    &&& is_digits(body)
    &&& body.len() > 1 ==> body[0] != '0'
    &&& body.len() < s.len() ==> body[0] != '0'
}

/// A string of digits never denotes less than one of its prefixes.
pub proof fn lemma_digits_value_grows(s: Seq<char>, k: int)
    requires
        0 <= k <= s.len(),
        forall|i: int| 0 <= i < s.len() ==> is_digit(#[trigger] s[i]),
    ensures
        0 <= digits_value(s.take(k)) <= digits_value(s),
    decreases s.len(),
{
    if k == s.len() {
        assert(s.take(k) =~= s);
        if s.len() > 0 {
            lemma_digits_value_grows(s.drop_last(), k - 1);
            assert(s.drop_last().take(k - 1) =~= s.drop_last());
        }
    } else {
        lemma_digits_value_grows(s.drop_last(), k);
        assert(s.drop_last().take(k) =~= s.take(k));
    }
}

/// `digit_char` and `digit_value` undo each other.
pub proof fn lemma_digit_char(d: int)
    requires
        0 <= d < 10,
    ensures
        is_digit(digit_char(d)),
        digit_value(digit_char(d)) == d,
        d != 0 ==> digit_char(d) != '0',
{
}

/// `digit_value` and `digit_char` undo each other.
pub proof fn lemma_digit_value(c: char)
    requires
        is_digit(c),
    ensures
        0 <= digit_value(c) < 10,
        digit_char(digit_value(c)) == c,
        c != '0' ==> digit_value(c) != 0,
{
}

/// What `digits` writes is a string of digits that denotes the number written.
pub proof fn lemma_digits_round_trip(n: nat)
    ensures
        is_digits(digits(n)),
        digits_value(digits(n)) == n,
        digits(n).len() > 1 ==> digits(n)[0] != '0',
        n > 0 ==> digits(n)[0] != '0',
    decreases n,
{
    let written = digits(n);
    if n < 10 {
        lemma_digit_char(n as int);
        assert(written.drop_last() =~= Seq::<char>::empty());
        assert(digits_value(written.drop_last()) == 0);
    } else {
        lemma_digits_round_trip(n / 10);
        lemma_digit_char(n as int % 10);
        assert(written.drop_last() =~= digits(n / 10));
        assert(written[0] == digits(n / 10)[0]);
    }
}

/// A string of digits without a leading zero is what `digits` writes for the
/// number it denotes.
pub proof fn lemma_digits_of_value(s: Seq<char>)
    requires
        is_digits(s),
        s.len() > 1 ==> s[0] != '0',
    ensures
        digits_value(s) >= 0,
        s[0] != '0' ==> digits_value(s) > 0,
        digits(digits_value(s) as nat) == s,
    decreases s.len(),
{
    let init = s.drop_last();
    lemma_digit_value(s.last());
    if s.len() == 1 {
        assert(init =~= Seq::<char>::empty());
        assert(digits_value(init) == 0);
        assert(digits(digits_value(s) as nat) =~= s);
    } else {
        assert(init[0] == s[0]);
        lemma_digits_of_value(init);
        let n = digits_value(s);
        assert(n / 10 == digits_value(init) && n % 10 == digit_value(s.last()));
        assert(digits(n as nat) =~= s);
    }
}

/// A string that denotes an integer can stand as one token.
pub proof fn lemma_numeral_is_token(s: Seq<char>)
    requires
        integer_value(s) is Some,
    ensures
        is_token(s),
{
    assert forall|i: int| 0 <= i < s.len() implies !is_whitespace(#[trigger] s[i]) by {
        if s[0] == '-' || s[0] == '+' {
            if i > 0 {
                assert(s[i] == s.skip(1)[i - 1]);
            }
        }
    }
}

/// Reading what `decimal` wrote gives the number back.
pub proof fn lemma_parse_decimal(n: int)
    ensures
        integer_value(decimal(n)) == Some(n),
        is_canonical_numeral(decimal(n)),
{
    if n < 0 {
        lemma_digits_round_trip((-n) as nat);
        assert(decimal(n).skip(1) =~= digits((-n) as nat));
    } else {
        lemma_digits_round_trip(n as nat);
    }
}

/// `decimal` writes a canonical numeral back as it was read.
pub proof fn lemma_decimal_of_canonical(s: Seq<char>)
    requires
        is_canonical_numeral(s),
    ensures
        integer_value(s) is Some,
        decimal(integer_value(s).unwrap()) == s,
{
    if s.len() > 0 && s[0] == '-' {
        lemma_digits_of_value(s.skip(1));
        assert(seq!['-'] + s.skip(1) =~= s);
    } else {
        lemma_digits_of_value(s);
    }
}

/// Reads a coordinate from a token.
pub fn parse_coordinate(token: &[char]) -> (value: Option<i16>)
    ensures
        match value {
            Some(n) => coordinate_value(token@) == Some(n as int),
            None => coordinate_value(token@) is None,
        },
{
    let len = token.len();
    if len == 0 {
        return None;
    }
    let negative = token[0] == '-';
    let start: usize = if token[0] == '-' || token[0] == '+' {
        1
    } else {
        0
    };
    if start == len {
        return None;
    }
    let ghost body = token@.skip(start as int);
    assert(start == 0 ==> body =~= token@);
    // The magnitude of the least coordinate: no coordinate has a larger one.
    let limit: i32 = 32768;
    let mut magnitude: i32 = 0;
    let mut i: usize = start;
    while i < len
        invariant
            start <= i <= len,
            start < len == token@.len(),
            negative == (token@[0] == '-'),
            start == (if token@[0] == '-' || token@[0] == '+' { 1usize } else { 0usize }),
            body == token@.skip(start as int),
            start == 0 ==> body == token@,
            forall|j: int| 0 <= j < i - start ==> is_digit(#[trigger] body[j]),
            magnitude == digits_value(body.take(i - start)),
            limit == -i16::MIN,
            0 <= magnitude <= limit,
        decreases len - i,
    {
        let c = token[i];
        if !('0' <= c && c <= '9') {
            assert(!is_digit(body[i - start]));
            return None;
        }
        let digit: i32 = (c as u32 - '0' as u32) as i32;
        proof {
            let read = body.take(i + 1 - start);
            assert(read.drop_last() =~= body.take(i - start));
            assert(read.last() == c);
        }
        magnitude = magnitude * 10 + digit;
        if magnitude > limit {
            proof {
                if is_digits(body) {
                    lemma_digits_value_grows(body, i + 1 - start);
                }
            }
            return None;
        }
        i = i + 1;
    }
    assert(body.take(len - start) =~= body);
    if negative {
        Some((-magnitude) as i16)
    } else if magnitude < limit {
        Some(magnitude as i16)
    } else {
        None
    }
}

/// The one-character string that holds the digit for `d`.
fn digit_str(d: u32) -> (s: &'static str)
    requires
        d < 10,
    ensures
        s@ == seq![digit_char(d as int)],
{
    proof {
        reveal_strlit("0");
        reveal_strlit("1");
        reveal_strlit("2");
        reveal_strlit("3");
        reveal_strlit("4");
        reveal_strlit("5");
        reveal_strlit("6");
        reveal_strlit("7");
        reveal_strlit("8");
        reveal_strlit("9");
    }
    let s = match d {
        0 => "0",
        1 => "1",
        2 => "2",
        3 => "3",
        4 => "4",
        5 => "5",
        6 => "6",
        7 => "7",
        8 => "8",
        _ => "9",
    };
    assert(s@ =~= seq![digit_char(d as int)]);
    s
}

/// Appends the digits of `n` to `out`.
fn push_digits(out: &mut String, n: u32)
    ensures
        final(out)@ == old(out)@ + digits(n as nat),
    decreases n,
{
    if n >= 10 {
        push_digits(out, n / 10);
    }
    out.append(digit_str(n % 10));
    assert(out@ =~= old(out)@ + digits(n as nat));
}

/// Appends the decimal numeral of `n` to `out`.
pub fn push_decimal(out: &mut String, n: i32)
    ensures
        final(out)@ == old(out)@ + decimal(n as int),
{
    if n < 0 {
        proof {
            reveal_strlit("-");
        }
        out.append("-");
        let magnitude: u32 = ((-(n as i64)) as u32);
        push_digits(out, magnitude);
        assert(out@ =~= old(out)@ + decimal(n as int));
    } else {
        push_digits(out, n as u32);
    }
}

/// The first position at or after `from` that holds a line feed, or the
/// length of `s` if none is left.
pub open spec fn line_end(s: Seq<char>, from: int) -> int
    decreases s.len() - from,
{
    if 0 <= from < s.len() && s[from] != '\n' {
        line_end(s, from + 1)
    } else {
        from
    }
}

/// The lines of `s` that begin at or after `from`. A line ends at a line
/// feed, which is not part of it, nor is a carriage return just before that
/// line feed. What follows the last line feed is a line too, unless it is
/// empty.
pub open spec fn lines_from(s: Seq<char>, from: int) -> Seq<Seq<char>>
    decreases s.len() - from,
    via lines_from_terminates
{
    if 0 <= from < s.len() {
        let end = line_end(s, from);
        if end < s.len() {
            let stop = if from < end && s[end - 1] == '\r' {
                end - 1
            } else {
                end
            };
            seq![s.subrange(from, stop)] + lines_from(s, end + 1)
        } else {
            seq![s.subrange(from, end)]
        }
    } else {
        Seq::empty()
    }
}

#[via_fn]
proof fn lines_from_terminates(s: Seq<char>, from: int) {
    if 0 <= from < s.len() {
        lemma_line_end(s, from);
    }
}

/// All the lines of `s`.
pub open spec fn lines(s: Seq<char>) -> Seq<Seq<char>> {
    lines_from(s, 0)
}

/// `line_end` skips what is no line feed and nothing else.
pub proof fn lemma_line_end(s: Seq<char>, from: int)
    requires
        0 <= from <= s.len(),
    ensures
        from <= line_end(s, from) <= s.len(),
        line_end(s, from) < s.len() ==> s[line_end(s, from)] == '\n',
        forall|i: int| from <= i < line_end(s, from) ==> #[trigger] s[i] != '\n',
    decreases s.len() - from,
{
    if from < s.len() && s[from] != '\n' {
        lemma_line_end(s, from + 1);
    }
}

/// Finds the line of `text` that begins at `from`: the position just behind
/// its last character, and the position at which the next line begins.
pub fn next_line(text: &[char], from: usize) -> (span: Option<(usize, usize)>)
    ensures
        match span {
            Some((stop, next)) => {
                &&& from <= stop <= next <= text@.len()
                &&& from < next
                &&& lines_from(text@, from as int) == seq![
                    text@.subrange(from as int, stop as int),
                ] + lines_from(text@, next as int)
            },
            None => lines_from(text@, from as int) == Seq::<Seq<char>>::empty(),
        },
{
    if from >= text.len() {
        return None;
    }
    let mut end: usize = from;
    while end < text.len() && text[end] != '\n'
        invariant
            from <= end <= text@.len(),
            line_end(text@, from as int) == line_end(text@, end as int),
        decreases text@.len() - end,
    {
        end = end + 1;
    }
    if end < text.len() {
        let stop = if from < end && text[end - 1] == '\r' {
            end - 1
        } else {
            end
        };
        Some((stop, end + 1))
    } else {
        assert(lines_from(text@, end as int) =~= Seq::<Seq<char>>::empty());
        Some((end, end))
    }
}

} // verus!
