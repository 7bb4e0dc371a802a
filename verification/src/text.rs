//! Text helpers: comparison, trimming, searching and decimal numbers.
//!
//! A string is modelled by the sequence of its characters.

use vstd::prelude::*;
use vstd::utf8::{decode_utf8, encode_utf8, encode_utf8_decode_utf8, valid_utf8};

verus! {

// ---------------------------------------------------------------------------
// Characters
// ---------------------------------------------------------------------------

/// What `char::is_alphanumeric` answers.
pub uninterp spec fn char_is_alphanumeric(c: char) -> bool;

/// The characters with the Unicode property `White_Space`.
pub open spec fn char_is_whitespace(c: char) -> bool {
    let code = c as u32;
    ||| 9 <= code <= 13 || code == 0x20 || code == 0x85 || code == 0xa0 || code == 0x1680
    ||| 0x2000 <= code <= 0x200a || code == 0x2028 || code == 0x2029 || code == 0x202f
    ||| code == 0x205f || code == 0x3000
}

/// The characters of the Unicode category `Cc`, the control codes.
pub open spec fn char_is_control(c: char) -> bool {
    (c as u32) < 0x20 || 0x7f <= (c as u32) <= 0x9f
}

/// The characters that `char::to_lowercase` yields.
pub uninterp spec fn char_lowercase(c: char) -> Seq<char>;

/// The ASCII letters and digits.
pub open spec fn is_ascii_alphanumeric(c: char) -> bool {
    ||| 'a' <= c <= 'z'
    ||| 'A' <= c <= 'Z'
    ||| '0' <= c <= '9'
}

/// `c` with an ASCII capital letter turned into the small one.
pub open spec fn ascii_lowercase(c: char) -> char {
    if 'A' <= c <= 'Z' {
        ((c as u32) + 32) as char
    } else {
        c
    }
}

/// `char::is_alphanumeric`: a fixed property of the character; among the ASCII characters it holds
/// of the letters and the digits and of no other.
pub assume_specification[ char::is_alphanumeric ](c: char) -> (answer: bool)
    ensures
        answer == char_is_alphanumeric(c),
        (c as u32) < 128 ==> answer == is_ascii_alphanumeric(c),
;

/// `char::is_whitespace`: whether the character has the Unicode property `White_Space`.
pub assume_specification[ char::is_whitespace ](c: char) -> (answer: bool)
    ensures
        answer == char_is_whitespace(c),
;

/// `char::is_control`: whether the character is a control code.
pub assume_specification[ char::is_control ](c: char) -> (answer: bool)
    ensures
        answer == char_is_control(c),
;

/// `char::to_lowercase`: one or more characters, fixed by `c`; for an ASCII character they are the
/// one small letter, or the character itself.
#[verifier::external_body]
pub(crate) fn lowercase(c: char) -> (text: String)
    ensures
        text@ == char_lowercase(c),
        text@.len() > 0,
        (c as u32) < 128 ==> text@ == seq![ascii_lowercase(c)],
{
    c.to_lowercase().to_string()
}

/// `String::push`: the character is appended.
pub assume_specification[ String::push ](text: &mut String, c: char)
    ensures
        final(text)@ == old(text)@.push(c),
;

/// `String::from_utf8`: bytes that are UTF-8 become the text that they encode, and no others do.
#[verifier::external_body]
pub(crate) fn utf8_text(bytes: Vec<u8>) -> (text: Option<String>)
    ensures
        match text {
            Some(words) => valid_utf8(bytes@) && words@ == decode_utf8(bytes@),
            None => !valid_utf8(bytes@),
        },
{
    String::from_utf8(bytes).ok()
}

// ---------------------------------------------------------------------------
// Whole strings
// ---------------------------------------------------------------------------

/// Whether two strings hold the same characters.
pub fn same(left: &str, right: &str) -> (answer: bool)
    ensures
        answer == (left@ == right@),
{
    let a = left.as_bytes();
    let b = right.as_bytes();
    proof {
        encode_utf8_decode_utf8(left@);
        encode_utf8_decode_utf8(right@);
    }
    if a.len() != b.len() {
        return false;
    }
    let mut i: usize = 0;
    while i < a.len()
        invariant
            i <= a.len(),
            a.len() == b.len(),
            a@ == encode_utf8(left@),
            b@ == encode_utf8(right@),
            forall|j: int| 0 <= j < i ==> a@[j] == b@[j],
        decreases a.len() - i,
    {
        if a[i] != b[i] {
            return false;
        }
        i += 1;
    }
    assert(a@ =~= b@);
    true
}

/// The characters of a string.
pub fn chars_of(text: &str) -> (chars: Vec<char>)
    ensures
        chars@ == text@,
{
    let mut chars: Vec<char> = Vec::new();
    for c in it: text.chars()
        invariant
            chars@ == it.seq().take(it.index() as int),
            it.seq() == text@,
    {
        chars.push(c);
    }
    assert(text@.take(text@.len() as int) =~= text@);
    chars
}

/// The string that holds `chars[from..to]`.
pub fn string_of(chars: &Vec<char>, from: usize, to: usize) -> (text: String)
    requires
        from <= to <= chars@.len(),
    ensures
        text@ == chars@.subrange(from as int, to as int),
{
    let mut text = String::new();
    let mut i: usize = from;
    while i < to
        invariant
            from <= i <= to <= chars@.len(),
            text@ == chars@.subrange(from as int, i as int),
        decreases to - i,
    {
        text.push(chars[i]);
        i += 1;
    }
    text
}

/// Three strings, one after another.
pub fn join3(first: &str, second: &str, third: &str) -> (text: String)
    ensures
        text@ == first@ + second@ + third@,
{
    let mut text = first.to_owned();
    text.append(second);
    text.append(third);
    text
}

/// The model of a list of strings.
pub open spec fn texts_view(texts: Seq<String>) -> Seq<Seq<char>> {
    Seq::new(texts.len(), |i: int| texts[i]@)
}

/// No words.
pub open spec fn no_words() -> Seq<Seq<char>> {
    Seq::empty()
}

/// Adds a word to a list.
pub fn push_word(words: &mut Vec<String>, word: &str)
    ensures
        texts_view(final(words)@) == texts_view(old(words)@).push(word@),
{
    let ghost before = words@;
    words.push(word.to_owned());
    assert(texts_view(words@) =~= texts_view(before).push(word@));
}

/// A list of one word.
pub fn one_word(word: &str) -> (words: Vec<String>)
    ensures
        texts_view(words@) == no_words().push(word@),
{
    let mut words: Vec<String> = Vec::new();
    assert(texts_view(words@) =~= no_words());
    push_word(&mut words, word);
    words
}

/// A list of two words.
pub fn two_words(first: &str, second: &str) -> (words: Vec<String>)
    ensures
        texts_view(words@) == no_words().push(first@).push(second@),
{
    let mut words = one_word(first);
    push_word(&mut words, second);
    words
}

/// A list of three words.
pub fn three_words(first: &str, second: &str, third: &str) -> (words: Vec<String>)
    ensures
        texts_view(words@) == no_words().push(first@).push(second@).push(third@),
{
    let mut words = two_words(first, second);
    push_word(&mut words, third);
    words
}

// ---------------------------------------------------------------------------
// Searching and trimming
// ---------------------------------------------------------------------------

/// Whether `needle` occurs in `text` as one run of characters.
pub open spec fn occurs_in(needle: Seq<char>, text: Seq<char>) -> bool {
    exists|i: int|
        0 <= i <= text.len() - needle.len() && #[trigger] text.subrange(i, i + needle.len())
            == needle
}

/// Whether `text` begins with `prefix` when ASCII capitals count as small letters.
pub open spec fn begins_with_folded(text: Seq<char>, prefix: Seq<char>) -> bool {
    &&& prefix.len() <= text.len()
    &&& forall|i: int| 0 <= i < prefix.len() ==> ascii_lowercase(text[i]) == #[trigger] prefix[i]
}

/// Whether `text` is `word` when ASCII capitals count as small letters.
pub open spec fn is_folded(text: Seq<char>, word: Seq<char>) -> bool {
    text.len() == word.len() && begins_with_folded(text, word)
}

/// `text` without the characters at its end of which `drop` holds.
pub open spec fn trimmed_end(text: Seq<char>, drop: spec_fn(char) -> bool) -> Seq<char>
    decreases text.len(),
{
    if text.len() > 0 && drop(text.last()) {
        trimmed_end(text.drop_last(), drop)
    } else {
        text
    }
}

/// `text` without the characters at its start of which `drop` holds.
pub open spec fn trimmed_start(text: Seq<char>, drop: spec_fn(char) -> bool) -> Seq<char>
    decreases text.len(),
{
    if text.len() > 0 && drop(text[0]) {
        trimmed_start(text.drop_first(), drop)
    } else {
        text
    }
}

/// `text` without whitespace at its end.
pub open spec fn without_trailing_space(text: Seq<char>) -> Seq<char> {
    trimmed_end(text, |c: char| char_is_whitespace(c))
}

/// `text` without whitespace at its start and its end.
pub open spec fn without_outer_space(text: Seq<char>) -> Seq<char> {
    trimmed_end(
        trimmed_start(text, |c: char| char_is_whitespace(c)),
        |c: char| char_is_whitespace(c),
    )
}

/// `text` without the carriage returns and line feeds at its end.
pub open spec fn without_line_end(text: Seq<char>) -> Seq<char> {
    trimmed_end(text, |c: char| c == '\r' || c == '\n')
}

/// Whether every character of `text` is whitespace.
pub open spec fn is_blank_text(text: Seq<char>) -> bool {
    forall|i: int| 0 <= i < text.len() ==> char_is_whitespace(#[trigger] text[i])
}

/// Whether `c` is one of the characters of `text`.
pub fn contains_char(text: &str, c: char) -> (answer: bool)
    ensures
        answer == text@.contains(c),
{
    let chars = chars_of(text);
    let mut i: usize = 0;
    while i < chars.len()
        invariant
            i <= chars@.len(),
            chars@ == text@,
            forall|j: int| 0 <= j < i ==> text@[j] != c,
        decreases chars@.len() - i,
    {
        if chars[i] == c {
            assert(text@[i as int] == c);
            return true;
        }
        i += 1;
    }
    false
}

/// Whether `needle` occurs in `text`.
pub fn contains_text(text: &str, needle: &str) -> (answer: bool)
    ensures
        answer == occurs_in(needle@, text@),
{
    let chars = chars_of(text);
    let wanted = chars_of(needle);
    if wanted.len() > chars.len() {
        return false;
    }
    let total: usize = chars.len();
    let last: usize = total - wanted.len();
    let mut start: usize = 0;
    loop
        invariant
            start <= last,
            total == chars@.len(),
            last == total - wanted@.len(),
            chars@ == text@,
            wanted@ == needle@,
            forall|i: int|
                0 <= i < start ==> #[trigger] text@.subrange(i, i + needle@.len()) != needle@,
        decreases last - start,
    {
        let mut i: usize = 0;
        while i < wanted.len() && chars[start + i] == wanted[i]
            invariant
                i <= wanted@.len(),
                start <= last,
                total == chars@.len(),
                last == total - wanted@.len(),
                forall|j: int| 0 <= j < i ==> chars@[start + j] == wanted@[j],
            decreases wanted@.len() - i,
        {
            i += 1;
        }
        if i == wanted.len() {
            assert(text@.subrange(start as int, start + needle@.len()) =~= needle@);
            return true;
        }
        proof {
            let here = text@.subrange(start as int, start + needle@.len());
            assert(here[i as int] != needle@[i as int]);
        }
        if start == last {
            return false;
        }
        start += 1;
    }
}

/// Whether `text` begins with `prefix` when ASCII capitals in `text` count as small letters.
pub fn starts_with_folded(text: &str, prefix: &str) -> (answer: bool)
    ensures
        answer == begins_with_folded(text@, prefix@),
{
    let chars = chars_of(text);
    let wanted = chars_of(prefix);
    if wanted.len() > chars.len() {
        return false;
    }
    let mut i: usize = 0;
    while i < wanted.len()
        invariant
            i <= wanted@.len() <= chars@.len(),
            chars@ == text@,
            wanted@ == prefix@,
            forall|j: int| 0 <= j < i ==> ascii_lowercase(text@[j]) == #[trigger] prefix@[j],
        decreases wanted@.len() - i,
    {
        if fold_ascii(chars[i]) != wanted[i] {
            assert(ascii_lowercase(text@[i as int]) != prefix@[i as int]);
            return false;
        }
        i += 1;
    }
    true
}

/// Whether `text` is `word` when ASCII capitals in `text` count as small letters.
pub fn same_folded(text: &str, word: &str) -> (answer: bool)
    ensures
        answer == is_folded(text@, word@),
{
    chars_of(text).len() == chars_of(word).len() && starts_with_folded(text, word)
}

/// `c` with an ASCII capital letter turned into the small one.
pub fn fold_ascii(c: char) -> (folded: char)
    ensures
        folded == ascii_lowercase(c),
{
    if 'A' <= c && c <= 'Z' {
        ((c as u8) + 32) as char
    } else {
        c
    }
}

/// Whether `text` is empty or all whitespace.
pub fn is_blank(text: &str) -> (answer: bool)
    ensures
        answer == is_blank_text(text@),
{
    let chars = chars_of(text);
    let mut i: usize = 0;
    while i < chars.len()
        invariant
            i <= chars@.len(),
            chars@ == text@,
            forall|j: int| 0 <= j < i ==> char_is_whitespace(#[trigger] text@[j]),
        decreases chars@.len() - i,
    {
        if !chars[i].is_whitespace() {
            assert(!char_is_whitespace(text@[i as int]));
            return false;
        }
        i += 1;
    }
    true
}

/// `text` without whitespace at its end.
pub fn trim_end(text: &str) -> (trimmed: String)
    ensures
        trimmed@ == without_trailing_space(text@),
{
    let chars = chars_of(text);
    let ghost space = |c: char| char_is_whitespace(c);
    let mut end: usize = chars.len();
    assert(text@.take(end as int) =~= text@);
    while end > 0 && chars[end - 1].is_whitespace()
        invariant
            end <= chars@.len(),
            chars@ == text@,
            space == (|c: char| char_is_whitespace(c)),
            trimmed_end(text@.take(end as int), space) == trimmed_end(text@, space),
        decreases end,
    {
        assert(text@.take(end as int).drop_last() =~= text@.take(end - 1));
        end -= 1;
    }
    string_of(&chars, 0, end)
}

/// `text` without whitespace at its start and its end.
pub fn trim(text: &str) -> (trimmed: String)
    ensures
        trimmed@ == without_outer_space(text@),
{
    let chars = chars_of(text);
    let ghost space = |c: char| char_is_whitespace(c);
    let mut from: usize = 0;
    assert(text@.skip(0) =~= text@);
    while from < chars.len() && chars[from].is_whitespace()
        invariant
            from <= chars@.len(),
            chars@ == text@,
            space == (|c: char| char_is_whitespace(c)),
            trimmed_start(text@.skip(from as int), space) == trimmed_start(text@, space),
        decreases chars@.len() - from,
    {
        assert(text@.skip(from as int).drop_first() =~= text@.skip(from + 1));
        from += 1;
    }
    let rest = string_of(&chars, from, chars.len());
    assert(rest@ =~= text@.skip(from as int));
    trim_end(rest.as_str())
}

/// `text` without the carriage returns and line feeds at its end.
pub fn trim_line_end(text: &str) -> (trimmed: String)
    ensures
        trimmed@ == without_line_end(text@),
{
    let chars = chars_of(text);
    let ghost line_end = |c: char| c == '\r' || c == '\n';
    let mut end: usize = chars.len();
    assert(text@.take(end as int) =~= text@);
    while end > 0 && (chars[end - 1] == '\r' || chars[end - 1] == '\n')
        invariant
            end <= chars@.len(),
            chars@ == text@,
            line_end == (|c: char| c == '\r' || c == '\n'),
            trimmed_end(text@.take(end as int), line_end) == trimmed_end(text@, line_end),
        decreases end,
    {
        assert(text@.take(end as int).drop_last() =~= text@.take(end - 1));
        end -= 1;
    }
    string_of(&chars, 0, end)
}

// ---------------------------------------------------------------------------
// Decimal numbers
// ---------------------------------------------------------------------------

/// The digit character of a number below ten.
pub open spec fn digit_char(d: nat) -> char {
    (48 + d) as char
}

/// The decimal digits of `n`, without leading zeros.
pub open spec fn decimal(n: nat) -> Seq<char>
    decreases n,
{
    if n < 10 {
        seq![digit_char(n)]
    } else {
        decimal(n / 10).push(digit_char(n % 10))
    }
}

/// `n` in decimal, with a minus sign where it is negative.
pub open spec fn signed_decimal(n: int) -> Seq<char> {
    if n < 0 {
        seq!['-'] + decimal((-n) as nat)
    } else {
        decimal(n as nat)
    }
}

/// Whether every character is an ASCII digit.
pub open spec fn all_digits(text: Seq<char>) -> bool {
    forall|i: int| 0 <= i < text.len() ==> '0' <= #[trigger] text[i] <= '9'
}

/// The number that a run of digits stands for.
pub open spec fn digits_value(text: Seq<char>) -> nat
    decreases text.len(),
{
    if text.len() == 0 {
        0
    } else {
        digits_value(text.drop_last()) * 10 + (text.last() as nat - 48) as nat
    }
}

/// The digits of a number as a user writes it: a leading plus sign is allowed.
pub open spec fn number_digits(text: Seq<char>) -> Seq<char> {
    if text.len() > 0 && text[0] == '+' {
        text.drop_first()
    } else {
        text
    }
}

/// What `text` stands for as an unsigned number of at most `max`, if it is one.
pub open spec fn parsed_unsigned(text: Seq<char>, max: nat) -> Option<nat> {
    let digits = number_digits(text);
    if digits.len() > 0 && all_digits(digits) && digits_value(digits) <= max {
        Some(digits_value(digits))
    } else {
        None
    }
}

proof fn lemma_digits_value_prefix(text: Seq<char>, n: int)
    requires
        0 <= n <= text.len(),
    ensures
        digits_value(text.take(n)) <= digits_value(text),
    decreases text.len() - n,
{
    if n < text.len() {
        lemma_digits_value_prefix(text, n + 1);
        assert(text.take(n + 1).drop_last() =~= text.take(n));
    } else {
        assert(text.take(n) =~= text);
    }
}

/// `n` in decimal.
pub fn decimal_text(n: u64) -> (text: String)
    ensures
        text@ == decimal(n as nat),
    decreases n,
{
    if n < 10 {
        let mut text = String::new();
        text.push((48u8 + n as u8) as char);
        assert(text@ =~= seq![digit_char(n as nat)]);
        text
    } else {
        let mut text = decimal_text(n / 10);
        text.push((48u8 + (n % 10) as u8) as char);
        text
    }
}

/// `n` in decimal, with a minus sign where it is negative.
pub fn signed_decimal_text(n: i64) -> (text: String)
    ensures
        text@ == signed_decimal(n as int),
{
    if n < 0 {
        let magnitude: u64 = if n == i64::MIN {
            0x8000_0000_0000_0000
        } else {
            (-n) as u64
        };
        let mut text = String::new();
        text.push('-');
        text.append(decimal_text(magnitude).as_str());
        assert(text@ =~= seq!['-'] + decimal((-(n as int)) as nat));
        text
    } else {
        decimal_text(n as u64)
    }
}

/// Reads an unsigned number of at most `max`: an optional plus sign and then digits only.
pub fn parse_unsigned(text: &str, max: u64) -> (number: Option<u64>)
    ensures
        match number {
            Some(n) => parsed_unsigned(text@, max as nat) == Some(n as nat),
            None => parsed_unsigned(text@, max as nat) is None,
        },
{
    let chars = chars_of(text);
    let from: usize = if chars.len() > 0 && chars[0] == '+' {
        1
    } else {
        0
    };
    let ghost digits = number_digits(text@);
    assert(digits =~= text@.skip(from as int));
    if from == chars.len() {
        return None;
    }
    let mut i: usize = from;
    let mut value: u64 = 0;
    while i < chars.len()
        invariant
            from <= i <= chars@.len(),
            chars@ == text@,
            digits == number_digits(text@),
            digits == text@.skip(from as int),
            digits.len() > 0,
            value <= max,
            value == digits_value(digits.take(i - from)),
            forall|j: int| 0 <= j < i - from ==> '0' <= #[trigger] digits[j] <= '9',
        decreases chars@.len() - i,
    {
        let c = chars[i];
        assert(c == digits[i - from]);
        if c < '0' || c > '9' {
            return None;
        }
        let digit: u64 = (c as u32 - 48) as u64;
        proof {
            assert(digits.take(i - from + 1).drop_last() =~= digits.take(i - from));
            lemma_digits_value_prefix(digits, i - from + 1);
        }
        let next: u128 = value as u128 * 10 + digit as u128;
        if next > max as u128 {
            return None;
        }
        value = next as u64;
        i += 1;
    }
    assert(digits.take(i - from) =~= digits);
    Some(value)
}

proof fn lemma_decimal_digits(n: nat)
    ensures
        decimal(n).len() > 0,
        all_digits(decimal(n)),
        digits_value(decimal(n)) == n,
    decreases n,
{
    if n >= 10 {
        lemma_decimal_digits(n / 10);
        assert(decimal(n).drop_last() =~= decimal(n / 10));
    } else {
        assert(decimal(n).drop_last() =~= Seq::<char>::empty());
        assert(digits_value(Seq::<char>::empty()) == 0);
    }
}

/// Reading a number back from its decimal text gives the number.
pub proof fn law_decimal_reads_back(n: nat, max: nat)
    requires
        n <= max,
    ensures
        parsed_unsigned(decimal(n), max) == Some(n),
{
    lemma_decimal_digits(n);
    assert('0' <= decimal(n)[0] <= '9');
    assert(number_digits(decimal(n)) == decimal(n));
}

// ---------------------------------------------------------------------------
// Laws
// ---------------------------------------------------------------------------

proof fn lemma_end_is_cut(body: Seq<char>, tail: Seq<char>, drop: spec_fn(char) -> bool)
    requires
        forall|i: int| 0 <= i < tail.len() ==> drop(#[trigger] tail[i]),
        body.len() > 0 ==> !drop(body.last()),
    ensures
        trimmed_end(body + tail, drop) == body,
    decreases tail.len(),
{
    if tail.len() > 0 {
        assert((body + tail).drop_last() =~= body + tail.drop_last());
        assert((body + tail).last() == tail[tail.len() - 1]);
        lemma_end_is_cut(body, tail.drop_last(), drop);
    } else {
        assert(body + tail =~= body);
    }
}

proof fn lemma_start_is_cut(head: Seq<char>, body: Seq<char>, drop: spec_fn(char) -> bool)
    requires
        forall|i: int| 0 <= i < head.len() ==> drop(#[trigger] head[i]),
        body.len() > 0 ==> !drop(body[0]),
    ensures
        trimmed_start(head + body, drop) == body,
    decreases head.len(),
{
    if head.len() > 0 {
        assert((head + body).drop_first() =~= head.drop_first() + body);
        assert((head + body)[0] == head[0]);
        lemma_start_is_cut(head.drop_first(), body, drop);
    } else {
        assert(head + body =~= body);
    }
}

/// Of a line exactly the run of carriage returns and line feeds at its end is cut off.
pub proof fn law_line_ends_are_cut(body: Seq<char>, tail: Seq<char>)
    requires
        forall|i: int| 0 <= i < tail.len() ==> #[trigger] tail[i] == '\r' || tail[i] == '\n',
        body.len() > 0 ==> body.last() != '\r' && body.last() != '\n',
    ensures
        without_line_end(body + tail) == body,
{
    lemma_end_is_cut(body, tail, |c: char| c == '\r' || c == '\n');
}

/// Exactly the run of whitespace at the end of a text is cut off.
pub proof fn law_trailing_space_is_cut(body: Seq<char>, tail: Seq<char>)
    requires
        is_blank_text(tail),
        body.len() > 0 ==> !char_is_whitespace(body.last()),
    ensures
        without_trailing_space(body + tail) == body,
{
    lemma_end_is_cut(body, tail, |c: char| char_is_whitespace(c));
}

/// Exactly the runs of whitespace at the start and at the end of a text are cut off.
pub proof fn law_outer_space_is_cut(head: Seq<char>, body: Seq<char>, tail: Seq<char>)
    requires
        is_blank_text(head),
        is_blank_text(tail),
        body.len() > 0 ==> !char_is_whitespace(body[0]) && !char_is_whitespace(body.last()),
    ensures
        without_outer_space(head + body + tail) == body,
{
    let space = |c: char| char_is_whitespace(c);
    if body.len() > 0 {
        assert(head + body + tail =~= head + (body + tail));
        lemma_start_is_cut(head, body + tail, space);
        lemma_end_is_cut(body, tail, space);
    } else {
        let all = head + body + tail;
        assert forall|i: int| 0 <= i < all.len() implies space(#[trigger] all[i]) by {
            if i < head.len() {
                assert(all[i] == head[i]);
            } else {
                assert(all[i] == tail[i - head.len()]);
            }
        }
        lemma_start_is_cut(all, body, space);
        assert(all + body =~= all);
        lemma_end_is_cut(body, Seq::empty(), space);
        assert(body + Seq::<char>::empty() =~= body);
    }
}

/// Among the ASCII characters the blank ones are the tabulators, the line and page breaks, the
/// carriage return and the space, and the control codes are those below the space and the last one.
pub proof fn law_blanks_and_controls_in_ascii(c: char)
    requires
        (c as u32) < 128,
    ensures
        char_is_whitespace(c) <==> 9 <= c as u32 <= 13 || c == ' ',
        char_is_control(c) <==> (c as u32) < 32 || c as u32 == 127,
{
}

/// A text holds a word exactly where it is made of something, the word and something more.
pub proof fn law_occurrence(needle: Seq<char>, text: Seq<char>)
    ensures
        occurs_in(needle, text) <==> exists|before: Seq<char>, after: Seq<char>|
            text == #[trigger] (before + needle + after),
{
    if occurs_in(needle, text) {
        let i = choose|i: int|
            0 <= i <= text.len() - needle.len() && #[trigger] text.subrange(i, i + needle.len())
                == needle;
        let before = text.take(i);
        let after = text.skip(i + needle.len());
        assert(text =~= before + needle + after);
    }
    if exists|before: Seq<char>, after: Seq<char>| text == #[trigger] (before + needle + after) {
        let (before, after) = choose|before: Seq<char>, after: Seq<char>|
            text == #[trigger] (before + needle + after);
        let at: int = before.len() as int;
        assert(text.subrange(at, at + needle.len()) =~= needle);
    }
}

/// Capital letters of ASCII become the small ones, and no other character changes.
pub proof fn law_folding(c: char)
    ensures
        'A' <= c <= 'Z' ==> ascii_lowercase(c) as u32 == c as u32 + 32,
        !('A' <= c <= 'Z') ==> ascii_lowercase(c) == c,
{
}

/// A text begins with a word, capitals counting as small letters, exactly where its first letters
/// become those of the word; and it is the word where it is no longer.
pub proof fn law_folded_beginnings(start: Seq<char>, rest: Seq<char>, word: Seq<char>)
    requires
        start.len() == word.len(),
    ensures
        begins_with_folded(start + rest, word) <==> forall|i: int|
            0 <= i < word.len() ==> ascii_lowercase(#[trigger] start[i]) == word[i],
        is_folded(start + rest, word) <==> begins_with_folded(start + rest, word) && rest.len()
            == 0,
{
    let text = start + rest;
    assert forall|i: int| 0 <= i < word.len() implies text[i] == #[trigger] start[i] by {}
    if begins_with_folded(text, word) {
        assert forall|i: int| 0 <= i < word.len() implies ascii_lowercase(#[trigger] start[i])
            == word[i] by {
            assert(ascii_lowercase(text[i]) == word[i]);
        }
    }
    if forall|i: int| 0 <= i < word.len() ==> ascii_lowercase(#[trigger] start[i]) == word[i] {
        assert forall|i: int| 0 <= i < word.len() implies ascii_lowercase(text[i])
            == #[trigger] word[i] by {
            assert(ascii_lowercase(start[i]) == word[i]);
        }
    }
}

/// A number is read digit by digit: one digit stands for its value, each further one adds itself to
/// ten times what came before, and anything else, or a value beyond the limit, is no number. A plus
/// sign may stand in front.
pub proof fn law_numbers_are_read_digit_by_digit(text: Seq<char>, c: char, max: nat)
    ensures
        parsed_unsigned(Seq::empty(), max) is None,
        parsed_unsigned(seq![c], max) == if '0' <= c <= '9' && c as nat - 48 <= max {
            Some((c as nat - 48) as nat)
        } else {
            None
        },
        text.len() > 0 && text != seq!['+'] ==> parsed_unsigned(text.push(c), max) == match (
            parsed_unsigned(text, max)
        ) {
            Some(n) => if '0' <= c <= '9' && n * 10 + (c as nat - 48) <= max {
                Some((n * 10 + (c as nat - 48)) as nat)
            } else {
                None
            },
            None => None,
        },
        text.len() > 0 && text[0] != '+' ==> parsed_unsigned(seq!['+'] + text, max)
            == parsed_unsigned(text, max),
{
    let one = seq![c];
    assert(one.drop_last() =~= Seq::<char>::empty());
    assert(digits_value(Seq::<char>::empty()) == 0);
    assert(number_digits(one) == if c == '+' {
        one.drop_first()
    } else {
        one
    });
    assert(one.drop_first() =~= Seq::<char>::empty());
    assert(one[0] == c);
    if text.len() > 0 && text != seq!['+'] {
        let digits = number_digits(text);
        let more = number_digits(text.push(c));
        assert(text.push(c)[0] == text[0]);
        if text[0] == '+' {
            if text.len() == 1 {
                assert(text =~= seq!['+']);
            }
            assert(more =~= digits.push(c));
        }
        assert(more == digits.push(c));
        assert(more.drop_last() =~= digits);
        assert(digits.len() > 0);
        if all_digits(more) {
            assert(more[digits.len() as int] == c);
            assert forall|i: int| 0 <= i < digits.len() implies '0' <= #[trigger] digits[i]
                <= '9' by {
                assert(more[i] == digits[i]);
            }
        }
        if all_digits(digits) && '0' <= c <= '9' {
            assert forall|i: int| 0 <= i < more.len() implies '0' <= #[trigger] more[i] <= '9' by {
                if i < digits.len() {
                    assert(more[i] == digits[i]);
                }
            }
        }
    }
    if text.len() > 0 && text[0] != '+' {
        assert((seq!['+'] + text).drop_first() =~= text);
    }
}

/// The decimal text of a number has no zero in front that could be left out, and a negative number
/// has a minus sign before the decimal text of its distance from zero.
pub proof fn law_decimal_is_shortest(n: nat)
    ensures
        decimal(n).len() == 1 || decimal(n)[0] != '0',
        decimal(n).len() > 0,
        signed_decimal(n as int) == decimal(n),
        n > 0 ==> signed_decimal(-(n as int)) == seq!['-'] + decimal(n),
    decreases n,
{
    if n >= 10 {
        law_decimal_is_shortest(n / 10);
        let front = n / 10;
        if front < 10 {
            assert(decimal(front)[0] == digit_char(front));
            assert(digit_char(front) as nat == 48 + front);
        } else {
            lemma_decimal_digits(front / 10);
        }
        assert(decimal(n)[0] == decimal(front)[0]);
    }
}

} // verus!
