//! Text: numerals, trimming and splitting.

use vstd::prelude::*;
use vstd::string::*;

verus! {

/// Whether a character is an ASCII digit.
pub open spec fn is_digit(c: char) -> bool {
    '0' <= c <= '9'
}

/// The value of an ASCII digit.
pub open spec fn digit_value(c: char) -> int {
    c as int - '0' as int
}

/// The digit for a value below ten.
pub open spec fn digit_char(value: int) -> char {
    ('0' as int + value) as char
}

/// The numeral of `n` in base ten, without leading zeros.
pub open spec fn numeral(n: nat) -> Seq<char>
    decreases n,
{
    if n < 10 {
        seq![digit_char(n as int)]
    } else {
        numeral(n / 10).push(digit_char((n % 10) as int))
    }
}

/// The number that a run of digits stands for.
pub open spec fn number_of(digits: Seq<char>) -> int
    decreases digits.len(),
{
    if digits.len() == 0 {
        0
    } else {
        number_of(digits.drop_last()) * 10 + digit_value(digits.last())
    }
}

/// Whether a text is a non-empty run of digits.
pub open spec fn is_digits(text: Seq<char>) -> bool {
    text.len() > 0 && forall|i: int| 0 <= i < text.len() ==> is_digit(#[trigger] text[i])
}

/// A text without the plus sign that it may start with.
pub open spec fn without_plus(text: Seq<char>) -> Seq<char> {
    if text.len() > 0 && text[0] == '+' {
        text.drop_first()
    } else {
        text
    }
}

/// The unsigned number that a text stands for: digits, with or without a plus sign before them.
/// `None` for any other text, and for a number above `max`.
pub open spec fn unsigned_of_text(text: Seq<char>, max: int) -> Option<int> {
    let digits = without_plus(text);
    if is_digits(digits) && number_of(digits) <= max {
        Some(number_of(digits))
    } else {
        None
    }
}

/// Whether a text ends with a suffix.
pub open spec fn ends_with(text: Seq<char>, suffix: Seq<char>) -> bool {
    suffix.len() <= text.len() && text.skip(text.len() - suffix.len()) == suffix
}

/// A text from whose end a suffix was taken as often as it is there.
pub open spec fn without_suffixes(text: Seq<char>, suffix: Seq<char>) -> Seq<char>
    decreases text.len(),
{
    if suffix.len() > 0 && ends_with(text, suffix) {
        without_suffixes(text.take(text.len() - suffix.len()), suffix)
    } else {
        text
    }
}

/// Whether a character has the Unicode property White_Space.
pub open spec fn is_white_space(c: char) -> bool {
    let n = c as int;
    ||| 0x9 <= n <= 0xd
    ||| n == 0x20
    ||| n == 0x85
    ||| n == 0xa0
    ||| n == 0x1680
    ||| 0x2000 <= n <= 0x200a
    ||| 0x2028 <= n <= 0x2029
    ||| n == 0x202f
    ||| n == 0x205f
    ||| n == 0x3000
}

/// A text without the characters at its start for which `drops` holds.
pub open spec fn trim_start(text: Seq<char>, drops: spec_fn(char) -> bool) -> Seq<char>
    decreases text.len(),
{
    if text.len() > 0 && drops(text[0]) {
        trim_start(text.drop_first(), drops)
    } else {
        text
    }
}

/// A text without the characters at its end for which `drops` holds.
pub open spec fn trim_end(text: Seq<char>, drops: spec_fn(char) -> bool) -> Seq<char>
    decreases text.len(),
{
    if text.len() > 0 && drops(text.last()) {
        trim_end(text.drop_last(), drops)
    } else {
        text
    }
}

/// A text without the characters at both ends for which `drops` holds.
pub open spec fn trimmed(text: Seq<char>, drops: spec_fn(char) -> bool) -> Seq<char> {
    trim_end(trim_start(text, drops), drops)
}

/// The White_Space characters.
pub open spec fn white_space() -> spec_fn(char) -> bool {
    |c: char| is_white_space(c)
}

/// The double quote.
pub open spec fn double_quote() -> spec_fn(char) -> bool {
    |c: char| c == '"'
}

/// A text without the white space around it and then without the double quotes around the rest.
pub open spec fn bare(text: Seq<char>) -> Seq<char> {
    trimmed(trimmed(text, white_space()), double_quote())
}

/// The pieces of a text between the separators.
pub open spec fn split(text: Seq<char>, separator: char) -> Seq<Seq<char>>
    decreases text.len(),
{
    if text.len() == 0 {
        seq![Seq::<char>::empty()]
    } else {
        let before = split(text.drop_last(), separator);
        if text.last() == separator {
            before.push(Seq::<char>::empty())
        } else {
            before.drop_last().push(before.last().push(text.last()))
        }
    }
}

/// The texts of a list of strings.
pub open spec fn texts(list: Seq<String>) -> Seq<Seq<char>> {
    list.map_values(|s: String| s@)
}

/// Compares two texts.
pub fn same_text(a: &str, b: &str) -> (result: bool)
    ensures
        result == (a@ == b@),
{
    a.to_owned() == b.to_owned()
}

/// The characters of a text.
fn chars_of(text: &str) -> (result: Vec<char>)
    ensures
        result@ == text@,
{
    let mut result: Vec<char> = Vec::new();
    for c in iter: text.chars()
        invariant
            result@ == text@.take(iter.index()),
            iter.seq() == text@,
    {
        proof {
            assert(text@.take(iter.index() + 1) == text@.take(iter.index()).push(c));
        }
        result.push(c);
    }
    result
}

/// The numeral of one digit.
fn digit_text(value: u64) -> (result: &'static str)
    requires
        value < 10,
    ensures
        result@ == seq![digit_char(value as int)],
{
    proof {
        reveal_strlit("0");
        reveal_strlit("1");
        reveal_strlit("2");
        reveal_strlit("3");
        reveal_strlit("4");
        reveal_strlit("5");
        reveal_strlit("6");
        reveal_strlit("7");
        reveal_strlit("8");
        reveal_strlit("9");
    }
    match value {
        0 => "0",
        1 => "1",
        2 => "2",
        3 => "3",
        4 => "4",
        5 => "5",
        6 => "6",
        7 => "7",
        8 => "8",
        _ => "9",
    }
}

/// The numeral of `n` in base ten.
pub fn numeral_text(n: u64) -> (result: String)
    ensures
        result@ == numeral(n as nat),
    decreases n,
{
    if n < 10 {
        digit_text(n).to_owned()
    } else {
        let mut result = numeral_text(n / 10);
        result.append(digit_text(n % 10));
        result
    }
}

/// A number grows with every digit that follows.
proof fn lemma_number_of_prefix(digits: Seq<char>, n: int)
    requires
        0 <= n <= digits.len(),
        forall|i: int| 0 <= i < digits.len() ==> is_digit(#[trigger] digits[i]),
    ensures
        0 <= number_of(digits.take(n)) <= number_of(digits),
    decreases digits.len(),
{
    if n == digits.len() {
        assert(digits.take(n) == digits);
        if n > 0 {
            lemma_number_of_prefix(digits.drop_last(), n - 1);
            assert(digits.drop_last().take(n - 1) == digits.drop_last());
        }
    } else {
        lemma_number_of_prefix(digits.drop_last(), n);
        assert(digits.drop_last().take(n) == digits.take(n));
    }
}

/// Reads an unsigned number of at most `max`.
pub fn parse_unsigned(text: &str, max: u64) -> (result: Option<u64>)
    ensures
        match result {
            Some(n) => unsigned_of_text(text@, max as int) == Some(n as int),
            None => unsigned_of_text(text@, max as int) is None,
        },
{
    let chars = chars_of(text);
    let start: usize = if chars.len() > 0 && chars[0] == '+' {
        1
    } else {
        0
    };
    let ghost digits = without_plus(text@);
    proof {
        assert(digits == text@.skip(start as int));
    }
    if start == chars.len() {
        return None;
    }
    let mut value: u64 = 0;
    let mut i: usize = start;
    proof {
        assert(digits.take(0) == Seq::<char>::empty());
    }
    while i < chars.len()
        invariant
            start <= i <= chars.len(),
            start < chars.len(),
            chars@ == text@,
            digits == without_plus(text@),
            digits == text@.skip(start as int),
            forall|j: int| 0 <= j < i - start ==> is_digit(#[trigger] digits[j]),
            value == number_of(digits.take(i - start)),
            value <= max,
        decreases chars.len() - i,
    {
        let c = chars[i];
        proof {
            assert(digits[i - start] == c);
        }
        if !('0' <= c && c <= '9') {
            return None;
        }
        let digit: u64 = c as u64 - '0' as u64;
        proof {
            let longer = digits.take(i - start + 1);
            assert(longer.drop_last() == digits.take(i - start));
            assert(number_of(longer) == value * 10 + digit);
            if is_digits(digits) {
                lemma_number_of_prefix(digits, i - start + 1);
            }
        }
        let next: u128 = value as u128 * 10 + digit as u128;
        if next > max as u128 {
            return None;
        }
        value = next as u64;
        i = i + 1;
    }
    proof {
        assert(digits.take(i - start) == digits);
    }
    Some(value)
}

/// Takes a suffix from the end of a text as often as it is there.
pub fn strip_suffixes<'a>(text: &'a str, suffix: &str) -> (result: &'a str)
    ensures
        result@ == without_suffixes(text@, suffix@),
{
    let chars = chars_of(text);
    let end_chars = chars_of(suffix);
    let n: usize = end_chars.len();
    if n == 0 {
        return text;
    }
    let mut end: usize = chars.len();
    proof {
        assert(text@.take(end as int) == text@);
    }
    while end >= n
        invariant
            n == suffix@.len(),
            n > 0,
            end <= chars.len(),
            chars@ == text@,
            end_chars@ == suffix@,
            without_suffixes(text@.take(end as int), suffix@) == without_suffixes(text@, suffix@),
        ensures
            end <= chars.len(),
            text@.take(end as int) == without_suffixes(text@, suffix@),
        decreases end,
    {
        let mut i: usize = 0;
        while i < n && chars[end - n + i] == end_chars[i]
            invariant
                i <= n <= end <= chars.len(),
                n == end_chars.len(),
                chars@ == text@,
                end_chars@ == suffix@,
                forall|j: int| 0 <= j < i ==> text@[end - n + j] == #[trigger] suffix@[j],
            ensures
                i <= n,
                forall|j: int| 0 <= j < i ==> text@[end - n + j] == #[trigger] suffix@[j],
                i < n ==> text@[end - n + i] != suffix@[i as int],
            decreases n - i,
        {
            i = i + 1;
        }
        let ghost now = text@.take(end as int);
        if i < n {
            proof {
                assert(now.skip(end - n)[i as int] == text@[end - n + i]);
            }
            break;
        }
        proof {
            assert(now.skip(end - n) == suffix@);
            assert(now.take(end - n) == text@.take(end - n));
        }
        end = end - n;
    }
    text.substring_char(0, end)
}

/// Whether a character has the Unicode property White_Space.
fn has_white_space(c: char) -> (result: bool)
    ensures
        result == is_white_space(c),
{
    let n: u32 = c as u32;
    (0x9 <= n && n <= 0xd) || n == 0x20 || n == 0x85 || n == 0xa0 || n == 0x1680 || (0x2000 <= n && n
        <= 0x200a) || (0x2028 <= n && n <= 0x2029) || n == 0x202f || n == 0x205f || n == 0x3000
}

/// Which characters [`trim_range`] drops.
#[derive(Clone, Copy)]
enum Edge {
    WhiteSpace,
    DoubleQuote,
}

impl Edge {
    spec fn drops(self) -> spec_fn(char) -> bool {
        match self {
            Edge::WhiteSpace => white_space(),
            Edge::DoubleQuote => double_quote(),
        }
    }

    fn is_dropped(self, c: char) -> (result: bool)
        ensures
            result == (self.drops())(c),
    {
        match self {
            Edge::WhiteSpace => has_white_space(c),
            Edge::DoubleQuote => c == '"',
        }
    }
}

/// Narrows the range from `start` to `end` to what is left after trimming.
fn trim_range(chars: &Vec<char>, start: usize, end: usize, edge: Edge) -> (result: (usize, usize))
    requires
        start <= end <= chars.len(),
    ensures
        start <= result.0 <= result.1 <= end,
        chars@.subrange(result.0 as int, result.1 as int) == trimmed(
            chars@.subrange(start as int, end as int),
            edge.drops(),
        ),
{
    let mut from: usize = start;
    let ghost whole = chars@.subrange(start as int, end as int);
    while from < end && edge.is_dropped(chars[from])
        invariant
            start <= from <= end <= chars.len(),
            whole == chars@.subrange(start as int, end as int),
            trim_start(chars@.subrange(from as int, end as int), edge.drops()) == trim_start(
                whole,
                edge.drops(),
            ),
        ensures
            start <= from <= end,
            chars@.subrange(from as int, end as int) == trim_start(whole, edge.drops()),
        decreases end - from,
    {
        proof {
            let rest = chars@.subrange(from as int, end as int);
            assert(rest.drop_first() == chars@.subrange(from + 1, end as int));
        }
        from = from + 1;
    }
    let mut to: usize = end;
    let ghost right = chars@.subrange(from as int, end as int);
    while to > from && edge.is_dropped(chars[to - 1])
        invariant
            from <= to <= end <= chars.len(),
            right == chars@.subrange(from as int, end as int),
            trim_end(chars@.subrange(from as int, to as int), edge.drops()) == trim_end(
                right,
                edge.drops(),
            ),
        ensures
            from <= to <= end,
            chars@.subrange(from as int, to as int) == trim_end(right, edge.drops()),
        decreases to - from,
    {
        proof {
            let rest = chars@.subrange(from as int, to as int);
            assert(rest.drop_last() == chars@.subrange(from as int, to - 1));
        }
        to = to - 1;
    }
    (from, to)
}

/// The part of a text from `start` to `end`, without the white space and the double quotes
/// around it.
fn bare_part(text: &str, chars: &Vec<char>, start: usize, end: usize) -> (result: String)
    requires
        chars@ == text@,
        start <= end <= chars.len(),
    ensures
        result@ == bare(text@.subrange(start as int, end as int)),
{
    let (from, to) = trim_range(chars, start, end, Edge::WhiteSpace);
    let (from, to) = trim_range(chars, from, to, Edge::DoubleQuote);
    text.substring_char(from, to).to_owned()
}

/// Splits a text at the separators and makes each piece bare.
pub fn split_bare(text: &str, separator: char) -> (result: Vec<String>)
    ensures
        texts(result@) == split(text@, separator).map_values(|piece: Seq<char>| bare(piece)),
{
    let chars = chars_of(text);
    let mut result: Vec<String> = Vec::new();
    let mut start: usize = 0;
    let mut i: usize = 0;
    let ghost done: Seq<Seq<char>> = Seq::empty();
    proof {
        assert(text@.take(0) == Seq::<char>::empty());
        assert(split(text@.take(0), separator) == done.push(text@.subrange(0, 0)));
    }
    while i < chars.len()
        invariant
            start <= i <= chars.len(),
            chars@ == text@,
            split(text@.take(i as int), separator) == done.push(text@.subrange(start as int, i as int)),
            texts(result@) == done.map_values(|piece: Seq<char>| bare(piece)),
        decreases chars.len() - i,
    {
        let ghost piece = text@.subrange(start as int, i as int);
        proof {
            let longer = text@.take(i + 1);
            assert(longer.drop_last() == text@.take(i as int));
            assert(done.push(piece).drop_last() == done);
            assert(text@.subrange(start as int, i + 1) == piece.push(longer.last()));
        }
        if chars[i] == separator {
            let part = bare_part(text, &chars, start, i);
            proof {
                assert(texts(result@.push(part)) == texts(result@).push(part@));
                assert(done.push(piece).map_values(|piece: Seq<char>| bare(piece)) == done.map_values(
                    |piece: Seq<char>| bare(piece),
                ).push(bare(piece)));
                done = done.push(piece);
            }
            result.push(part);
            start = i + 1;
            proof {
                assert(text@.subrange(start as int, i + 1) == Seq::<char>::empty());
            }
        }
        i = i + 1;
    }
    let part = bare_part(text, &chars, start, i);
    proof {
        let piece = text@.subrange(start as int, i as int);
        assert(text@.take(i as int) == text@);
        assert(texts(result@.push(part)) == texts(result@).push(part@));
        assert(done.push(piece).map_values(|piece: Seq<char>| bare(piece)) == done.map_values(
            |piece: Seq<char>| bare(piece),
        ).push(bare(piece)));
    }
    result.push(part);
    result
}

/// The lower case of a text, as Rust's `str::to_lowercase` gives it.
pub uninterp spec fn lowercase_of(text: Seq<char>) -> Seq<char>;

/// The lower case of an ASCII character.
pub open spec fn ascii_lowercase(c: char) -> char {
    if 'A' <= c <= 'Z' {
        (c as int + 32) as char
    } else {
        c
    }
}

/// Calls `str::to_lowercase`.
///
/// Its result is named. Of an ASCII text the letters `A` to `Z` become `a` to `z` and nothing
/// else changes.
#[verifier::external_body]
pub(crate) fn lowercase(text: &str) -> (result: String)
    ensures
        result@ == lowercase_of(text@),
        is_ascii(text) ==> result@ == text@.map_values(|c: char| ascii_lowercase(c)),
{
    text.to_lowercase()
}

/// The numeral of a number is made of digits, which stand for the number.
proof fn lemma_numeral(n: nat)
    ensures
        is_digits(numeral(n)),
        number_of(numeral(n)) == n,
    decreases n,
{
    let digits = numeral(n);
    if n < 10 {
        assert(digits.drop_last() == Seq::<char>::empty());
        assert(number_of(digits.drop_last()) == 0);
    } else {
        lemma_numeral(n / 10);
        assert(digits.drop_last() == numeral(n / 10));
    }
}

/// A number is read back from its numeral, wherever it is not too large.
pub proof fn law_numeral_reads_back(n: nat, max: int)
    ensures
        unsigned_of_text(numeral(n), max) == (if n <= max {
            Some(n as int)
        } else {
            None::<int>
        }),
{
    lemma_numeral(n);
    assert(is_digit(numeral(n)[0]));
}

/// Different numbers have different numerals.
pub proof fn law_numerals_differ(a: nat, b: nat)
    requires
        a != b,
    ensures
        numeral(a) != numeral(b),
{
    lemma_numeral(a);
    lemma_numeral(b);
}

/// A numeral starts with a zero only if it is that of zero, is one digit for a number below ten, and
/// otherwise that of the tens followed by the ones.
pub proof fn law_numeral(n: nat)
    ensures
        numeral(n).len() > 0,
        '0' <= numeral(n)[0] <= '9',
        numeral(n)[0] == '0' ==> n == 0 && numeral(n).len() == 1,
        n < 10 ==> numeral(n).len() == 1 && numeral(n)[0] as int == '0' as int + n,
        n >= 10 ==> numeral(n).drop_last() == numeral(n / 10) && numeral(n).last() as int == '0' as int
            + n % 10,
    decreases n,
{
    if n >= 10 {
        law_numeral(n / 10);
        assert(numeral(n).drop_last() == numeral(n / 10));
        assert(numeral(n)[0] == numeral(n / 10)[0]);
    }
}

/// A text that is not digits, but for a plus sign before them, stands for no number, and neither does
/// one that stands for more than the most; digits stand for ten times what the digits before the last
/// do and the last.
pub proof fn law_unsigned(text: Seq<char>, max: int)
    ensures
        unsigned_of_text(text, max) matches Some(n) ==> 0 <= n <= max && forall|i: int|
            0 <= i < text.len() ==> '0' <= #[trigger] text[i] <= '9' || (i == 0 && text[i] == '+'
                && text.len() > 1),
        unsigned_of_text(Seq::empty(), max) is None,
        text.len() > 0 && '0' <= text[0] <= '9' ==> unsigned_of_text(seq!['+'] + text, max)
            == unsigned_of_text(text, max),
        text.len() == 1 && '0' <= text[0] <= '9' ==> unsigned_of_text(text, max) == (if text[0] as int
            - '0' as int <= max {
            Some(text[0] as int - '0' as int)
        } else {
            None::<int>
        }),
        text.len() > 1 && '0' <= text[0] <= '9' && '0' <= text.last() <= '9' ==> {
            match unsigned_of_text(text.drop_last(), max) {
                Some(tens) => unsigned_of_text(text, max) == (if tens * 10 + (text.last() as int
                    - '0' as int) <= max {
                    Some(tens * 10 + (text.last() as int - '0' as int))
                } else {
                    None::<int>
                }),
                None => unsigned_of_text(text, max) is None,
            }
        },
{
    let digits = without_plus(text);
    if unsigned_of_text(text, max) is Some {
        lemma_number_of_prefix(digits, 0);
        assert(digits.take(0) == Seq::<char>::empty());
        assert forall|i: int| 0 <= i < text.len() implies '0' <= #[trigger] text[i] <= '9' || (i == 0
            && text[i] == '+' && text.len() > 1) by {
            if text[0] == '+' {
                if i > 0 {
                    assert(is_digit(digits[i - 1]));
                }
            } else {
                assert(is_digit(digits[i]));
            }
        }
    }
    if text.len() > 0 && '0' <= text[0] <= '9' {
        assert((seq!['+'] + text).drop_first() == text);
        assert(without_plus(seq!['+'] + text) == text);
        if text.len() == 1 {
            assert(text.drop_last() == Seq::<char>::empty());
            assert(number_of(text.drop_last()) == 0);
            assert(is_digits(text));
        } else if '0' <= text.last() <= '9' {
            let tens = text.drop_last();
            assert(without_plus(tens) == tens);
            assert(is_digits(text) <==> is_digits(tens)) by {
                if is_digits(text) {
                    assert forall|i: int| 0 <= i < tens.len() implies is_digit(#[trigger] tens[i]) by {
                        assert(is_digit(text[i]));
                    }
                }
                if is_digits(tens) {
                    assert forall|i: int| 0 <= i < text.len() implies is_digit(#[trigger] text[i]) by {
                        if i < tens.len() {
                            assert(is_digit(tens[i]));
                        }
                    }
                }
            }
            if is_digits(text) {
                lemma_number_of_prefix(tens, 0);
                assert(tens.take(0) == Seq::<char>::empty());
            }
        }
    }
}

/// Taking suffixes away leaves a text that does not end with one; a suffix more makes no difference,
/// and a text that does not end with one stays.
pub proof fn law_suffixes(text: Seq<char>, suffix: Seq<char>)
    requires
        suffix.len() > 0,
    ensures
        ({
            let rest = without_suffixes(text, suffix);
            rest.len() < suffix.len() || rest.skip(rest.len() - suffix.len()) != suffix
        }),
        without_suffixes(text + suffix, suffix) == without_suffixes(text, suffix),
        text.len() < suffix.len() || text.skip(text.len() - suffix.len()) != suffix
            ==> without_suffixes(text, suffix) == text,
    decreases text.len(),
{
    let longer = text + suffix;
    assert(longer.skip(longer.len() - suffix.len()) == suffix);
    assert(longer.take(longer.len() - suffix.len()) == text);
    if ends_with(text, suffix) {
        law_suffixes(text.take(text.len() - suffix.len()), suffix);
    }
}

/// A text without separators is one piece; what stands before and after a separator is split on its
/// own.
pub proof fn law_split(before: Seq<char>, separator: char, after: Seq<char>)
    ensures
        !before.contains(separator) ==> split(before, separator) == seq![before],
        split(before.push(separator) + after, separator) == split(before, separator) + split(
            after,
            separator,
        ),
{
    lemma_split_one(before, separator);
    lemma_split_both(before, separator, after);
}

proof fn lemma_split_one(text: Seq<char>, separator: char)
    ensures
        split(text, separator).len() > 0,
        !text.contains(separator) ==> split(text, separator) == seq![text],
    decreases text.len(),
{
    if text.len() > 0 {
        let rest = text.drop_last();
        lemma_split_one(rest, separator);
        if !text.contains(separator) {
            assert(text[text.len() - 1] == text.last());
            assert(!rest.contains(separator)) by {
                if rest.contains(separator) {
                    let k = choose|k: int| 0 <= k < rest.len() && rest[k] == separator;
                    assert(text[k] == separator);
                }
            }
            assert(rest.push(text.last()) == text);
            assert(seq![rest].drop_last() == Seq::<Seq<char>>::empty());
            assert(split(text, separator) == seq![text]);
        }
    } else {
        assert(text == Seq::<char>::empty());
    }
}

proof fn lemma_split_both(before: Seq<char>, separator: char, after: Seq<char>)
    ensures
        split(before.push(separator) + after, separator) == split(before, separator) + split(
            after,
            separator,
        ),
    decreases after.len(),
{
    let text = before.push(separator) + after;
    let first = split(before, separator);
    lemma_split_one(after, separator);
    if after.len() == 0 {
        assert(text.drop_last() == before);
        assert(text.last() == separator);
        assert(split(text, separator) == first + split(after, separator));
    } else {
        let rest = after.drop_last();
        lemma_split_both(before, separator, rest);
        lemma_split_one(rest, separator);
        assert(text.drop_last() == before.push(separator) + rest);
        assert(text.last() == after.last());
        let pieces = split(rest, separator);
        assert((first + pieces).drop_last() == first + pieces.drop_last());
        assert(split(text, separator) == first + split(after, separator));
    }
}

/// Trimming takes away all that is to be dropped at both ends and nothing else.
pub proof fn law_trimmed(
    left: Seq<char>,
    core: Seq<char>,
    right: Seq<char>,
    drops: spec_fn(char) -> bool,
)
    requires
        forall|i: int| 0 <= i < left.len() ==> drops(#[trigger] left[i]),
        forall|i: int| 0 <= i < right.len() ==> drops(#[trigger] right[i]),
        core.len() > 0 ==> !drops(core[0]) && !drops(core.last()),
    ensures
        trimmed(left + core + right, drops) == core,
    decreases left.len() + right.len(),
{
    let text = left + core + right;
    if left.len() > 0 {
        assert(text.drop_first() == left.drop_first() + core + right);
        assert(text[0] == left[0]);
        assert forall|i: int| 0 <= i < left.drop_first().len() implies drops(
            #[trigger] left.drop_first()[i],
        ) by {
            assert(drops(left[i + 1]));
        }
        law_trimmed(left.drop_first(), core, right, drops);
    } else if core.len() > 0 {
        assert(text == core + right);
        assert(text[0] == core[0]);
        lemma_trim_end(core, right, drops);
    } else {
        assert(text == right);
        lemma_trim_all(right, drops);
        assert(core == Seq::<char>::empty());
    }
}

proof fn lemma_trim_end(core: Seq<char>, right: Seq<char>, drops: spec_fn(char) -> bool)
    requires
        forall|i: int| 0 <= i < right.len() ==> drops(#[trigger] right[i]),
        core.len() > 0 ==> !drops(core.last()),
    ensures
        trim_end(core + right, drops) == core,
    decreases right.len(),
{
    let text = core + right;
    if right.len() > 0 {
        assert(text.last() == right[right.len() - 1]);
        assert(text.drop_last() == core + right.drop_last());
        assert forall|i: int| 0 <= i < right.drop_last().len() implies drops(
            #[trigger] right.drop_last()[i],
        ) by {
            assert(drops(right[i]));
        }
        lemma_trim_end(core, right.drop_last(), drops);
    } else {
        assert(text == core);
    }
}

proof fn lemma_trim_all(text: Seq<char>, drops: spec_fn(char) -> bool)
    requires
        forall|i: int| 0 <= i < text.len() ==> drops(#[trigger] text[i]),
    ensures
        trim_start(text, drops) == Seq::<char>::empty(),
        trimmed(text, drops) == Seq::<char>::empty(),
    decreases text.len(),
{
    if text.len() > 0 {
        assert forall|i: int| 0 <= i < text.drop_first().len() implies drops(
            #[trigger] text.drop_first()[i],
        ) by {
            assert(drops(text[i + 1]));
        }
        lemma_trim_all(text.drop_first(), drops);
    }
}

/// A bare text is what white space and, within that, double quotes stood around.
pub proof fn law_bare(
    space: Seq<char>,
    quotes: Seq<char>,
    core: Seq<char>,
    more_quotes: Seq<char>,
    more_space: Seq<char>,
)
    requires
        forall|i: int| 0 <= i < space.len() ==> is_white_space(#[trigger] space[i]),
        forall|i: int| 0 <= i < more_space.len() ==> is_white_space(#[trigger] more_space[i]),
        forall|i: int| 0 <= i < quotes.len() ==> #[trigger] quotes[i] == '"',
        forall|i: int| 0 <= i < more_quotes.len() ==> #[trigger] more_quotes[i] == '"',
        core.len() > 0,
        core[0] != '"' && core.last() != '"',
        !is_white_space(core[0]) && !is_white_space(core.last()),
    ensures
        bare(space + (quotes + core + more_quotes) + more_space) == core,
{
    let quoted = quotes + core + more_quotes;
    assert(quoted[0] == (if quotes.len() > 0 {
        quotes[0]
    } else {
        core[0]
    }));
    assert(quoted.last() == (if more_quotes.len() > 0 {
        more_quotes[more_quotes.len() - 1]
    } else {
        core.last()
    }));
    law_trimmed(space, quoted, more_space, white_space());
    law_trimmed(quotes, core, more_quotes, double_quote());
}

} // verus!
