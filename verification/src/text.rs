//! Text handling shared by the page readers and the request builders.
//!
//! Every function here is stated over the characters of its input
//! (`Seq<char>`), never over bytes.

use vstd::prelude::*;
use vstd::string::*;

verus! {

/// Whether `c` is white space: a character with the Unicode property
/// `White_Space`. These are the tab, the line feed, the vertical tab, the
/// form feed, the carriage return, the space, the next-line character, the
/// no-break space, the Ogham space mark, the spaces from the en quad to the
/// hair space, the line and the paragraph separator, the narrow no-break
/// space, the medium mathematical space and the ideographic space.
pub open spec fn is_whitespace(c: char) -> bool {
    let n = c as u32;
    (0x09 <= n <= 0x0d) || n == 0x20 || n == 0x85 || n == 0xa0 || n == 0x1680 || (0x2000 <= n
        <= 0x200a) || n == 0x2028 || n == 0x2029 || n == 0x202f || n == 0x205f || n == 0x3000
}

/// Whether `c` is white space.
pub fn char_is_whitespace(c: char) -> (b: bool)
    ensures
        b == is_whitespace(c),
{
    let n = c as u32;
    (0x09 <= n && n <= 0x0d) || n == 0x20 || n == 0x85 || n == 0xa0 || n == 0x1680 || (0x2000 <= n
        && n <= 0x200a) || n == 0x2028 || n == 0x2029 || n == 0x202f || n == 0x205f || n == 0x3000
}

/// The characters of `s`, one element each.
pub fn chars_of(s: &str) -> (chars: Vec<char>)
    ensures
        chars@ == s@,
{
    let mut chars: Vec<char> = Vec::new();
    for c in it: s.chars()
        invariant
            it.seq() == s@,
            chars@ == it.seq().take(it.index() as int),
    {
        chars.push(c);
    }
    chars
}

/// Whether two texts hold the same characters.
pub fn same_text(a: &str, b: &str) -> (same: bool)
    ensures
        same == (a@ == b@),
{
    let x = chars_of(a);
    let y = chars_of(b);
    if x.len() != y.len() {
        return false;
    }
    let mut i: usize = 0;
    while i < x.len()
        invariant
            x@ == a@,
            y@ == b@,
            x.len() == y.len(),
            i <= x.len(),
            forall|j: int| 0 <= j < i ==> x@[j] == y@[j],
        decreases x.len() - i,
    {
        if x[i] != y[i] {
            return false;
        }
        i += 1;
    }
    assert(x@ =~= y@);
    true
}

/// What follows the last `sep` in `s`; all of `s` where `sep` does not occur.
pub open spec fn after_last(s: Seq<char>, sep: char) -> Seq<char> {
    match s.index_of_last(sep) {
        Some(i) => s.skip(i + 1),
        None => s,
    }
}

/// What precedes the first `sep` in `s`; all of `s` where `sep` does not occur.
pub open spec fn before_first(s: Seq<char>, sep: char) -> Seq<char> {
    match s.index_of_first(sep) {
        Some(i) => s.take(i),
        None => s,
    }
}

/// The last path segment of a link, up to its first dot.
pub open spec fn link_stem(href: Seq<char>) -> Seq<char> {
    before_first(after_last(href, '/'), '.')
}

/// Where `sep` stands at the index `at` of `s` and nowhere behind it,
/// `after_last` is what stands behind `at`.
pub proof fn after_last_at(s: Seq<char>, sep: char, at: int)
    requires
        0 <= at < s.len(),
        s[at] == sep,
        forall|j: int| at < j < s.len() ==> s[j] != sep,
    ensures
        after_last(s, sep) == s.skip(at + 1),
{
    s.index_of_last_ensures(sep);
}

/// Where `sep` does not occur in `s`, `after_last` and `before_first` are
/// all of `s`.
pub proof fn without_separator(s: Seq<char>, sep: char)
    requires
        forall|j: int| 0 <= j < s.len() ==> s[j] != sep,
    ensures
        after_last(s, sep) == s,
        before_first(s, sep) == s,
{
    s.index_of_last_ensures(sep);
    s.index_of_first_ensures(sep);
}

/// Where `sep` stands at the index `at` of `s` and nowhere before it,
/// `before_first` is what stands before `at`.
pub proof fn before_first_at(s: Seq<char>, sep: char, at: int)
    requires
        0 <= at < s.len(),
        s[at] == sep,
        forall|j: int| 0 <= j < at ==> s[j] != sep,
    ensures
        before_first(s, sep) == s.take(at),
{
    s.index_of_first_ensures(sep);
}

/// The part of `s` that follows its last `sep`.
pub fn take_after_last<'a>(s: &'a str, sep: char) -> (tail: &'a str)
    ensures
        tail@ == after_last(s@, sep),
{
    let chars = chars_of(s);
    let mut start: usize = chars.len();
    while start > 0 && chars[start - 1] != sep
        invariant
            start <= chars.len(),
            forall|j: int| start <= j < chars.len() ==> chars@[j] != sep,
        decreases start,
    {
        start -= 1;
    }
    proof {
        s@.index_of_last_ensures(sep);
        if start == 0 {
            assert(s@.skip(0) =~= s@);
        }
    }
    s.substring_char(start, chars.len())
}

/// The part of `s` that precedes its first `sep`.
pub fn take_before_first<'a>(s: &'a str, sep: char) -> (head: &'a str)
    ensures
        head@ == before_first(s@, sep),
{
    let chars = chars_of(s);
    let mut end: usize = 0;
    while end < chars.len() && chars[end] != sep
        invariant
            end <= chars.len(),
            forall|j: int| 0 <= j < end ==> chars@[j] != sep,
        decreases chars.len() - end,
    {
        end += 1;
    }
    proof {
        s@.index_of_first_ensures(sep);
        if end == chars.len() {
            assert(s@.take(end as int) =~= s@);
        }
    }
    s.substring_char(0, end)
}

/// The stem of the last path segment of `href`.
pub fn stem_of_link<'a>(href: &'a str) -> (stem: &'a str)
    ensures
        stem@ == link_stem(href@),
{
    take_before_first(take_after_last(href, '/'), '.')
}

/// `s` without its leading white space.
pub open spec fn trim_start(s: Seq<char>) -> Seq<char>
    decreases s.len(),
{
    if s.len() > 0 && is_whitespace(s[0]) {
        trim_start(s.drop_first())
    } else {
        s
    }
}

/// `s` without its trailing white space.
pub open spec fn trim_end(s: Seq<char>) -> Seq<char>
    decreases s.len(),
{
    if s.len() > 0 && is_whitespace(s.last()) {
        trim_end(s.drop_last())
    } else {
        s
    }
}

/// `s` without the white space at either end.
pub open spec fn trimmed(s: Seq<char>) -> Seq<char> {
    trim_end(trim_start(s))
}

proof fn lemma_trim_start(s: Seq<char>, n: int)
    requires
        0 <= n <= s.len(),
        forall|j: int| 0 <= j < n ==> is_whitespace(s[j]),
        n == s.len() || !is_whitespace(s[n]),
    ensures
        trim_start(s) == s.skip(n),
    decreases n,
{
    if n == 0 {
        assert(s.skip(0) =~= s);
    } else {
        lemma_trim_start(s.drop_first(), n - 1);
        assert(s.drop_first().skip(n - 1) =~= s.skip(n));
    }
}

proof fn lemma_trim_end(s: Seq<char>, n: int)
    requires
        0 <= n <= s.len(),
        forall|j: int| n <= j < s.len() ==> is_whitespace(s[j]),
        n == 0 || !is_whitespace(s[n - 1]),
    ensures
        trim_end(s) == s.take(n),
    decreases s.len() - n,
{
    if n == s.len() {
        assert(s.take(n) =~= s);
    } else {
        lemma_trim_end(s.drop_last(), n);
        assert(s.drop_last().take(n) =~= s.take(n));
    }
}

/// The part of `s` between its leading and its trailing white space.
pub fn trim<'a>(s: &'a str) -> (inner: &'a str)
    ensures
        inner@ == trimmed(s@),
{
    let chars = chars_of(s);
    let mut start: usize = 0;
    while start < chars.len() && char_is_whitespace(chars[start])
        invariant
            start <= chars.len(),
            forall|j: int| 0 <= j < start ==> is_whitespace(chars@[j]),
        decreases chars.len() - start,
    {
        start += 1;
    }
    let mut end: usize = chars.len();
    while end > start && char_is_whitespace(chars[end - 1])
        invariant
            start <= end <= chars.len(),
            forall|j: int| end <= j < chars.len() ==> is_whitespace(chars@[j]),
        decreases end,
    {
        end -= 1;
    }
    proof {
        lemma_trim_start(s@, start as int);
        lemma_trim_end(s@.skip(start as int), end - start);
        assert(s@.skip(start as int).take(end - start) =~= s@.subrange(start as int, end as int));
    }
    s.substring_char(start, end)
}

/// `s` without its final character, where that character is `suffix`.
pub open spec fn without_suffix(s: Seq<char>, suffix: char) -> Option<Seq<char>> {
    if s.len() > 0 && s.last() == suffix {
        Some(s.drop_last())
    } else {
        None
    }
}

/// Removes one final `suffix` from `s`; `None` where `s` does not end in it.
pub fn strip_suffix<'a>(s: &'a str, suffix: char) -> (rest: Option<&'a str>)
    ensures
        rest is Some == without_suffix(s@, suffix) is Some,
        rest is Some ==> rest->0@ == without_suffix(s@, suffix)->0,
{
    let chars = chars_of(s);
    let n = chars.len();
    if n > 0 && chars[n - 1] == suffix {
        Some(s.substring_char(0, n - 1))
    } else {
        None
    }
}

/// Whether `needle` occurs in `hay` as a run of adjacent characters.
pub open spec fn occurs_in(needle: Seq<char>, hay: Seq<char>) -> bool {
    exists|i: int| occurs_at(needle, hay, i)
}

/// Whether `needle` occurs in `hay` starting at index `i`.
pub open spec fn occurs_at(needle: Seq<char>, hay: Seq<char>, i: int) -> bool {
    0 <= i && i + needle.len() <= hay.len() && hay.subrange(i, i + needle.len()) == needle
}

fn matches_at(needle: &Vec<char>, hay: &Vec<char>, i: usize) -> (hit: bool)
    requires
        i + needle.len() <= hay.len(),
    ensures
        hit == occurs_at(needle@, hay@, i as int),
{
    let mut k: usize = 0;
    while k < needle.len()
        invariant
            i + needle.len() <= hay.len(),
            k <= needle.len(),
            forall|j: int| 0 <= j < k ==> hay@[i + j] == needle@[j],
        decreases needle.len() - k,
    {
        if hay[i + k] != needle[k] {
            assert(hay@.subrange(i as int, i + needle.len())[k as int] != needle@[k as int]);
            return false;
        }
        k += 1;
    }
    assert(hay@.subrange(i as int, i + needle.len()) =~= needle@);
    true
}

/// Whether `hay` contains `needle`.
pub fn contains(hay: &str, needle: &str) -> (found: bool)
    ensures
        found == occurs_in(needle@, hay@),
{
    let h = chars_of(hay);
    let n = chars_of(needle);
    if n.len() > h.len() {
        return false;
    }
    let last: usize = h.len() - n.len();
    let mut i: usize = 0;
    loop
        invariant
            h@ == hay@,
            n@ == needle@,
            last == h.len() - n.len(),
            i <= last,
            forall|j: int| 0 <= j < i ==> !occurs_at(n@, h@, j),
        decreases last - i,
    {
        if matches_at(&n, &h, i) {
            return true;
        }
        if i == last {
            return false;
        }
        i += 1;
    }
}

/// Whether `s` begins with `prefix`.
pub fn starts_with(s: &str, prefix: &str) -> (begins: bool)
    ensures
        begins == prefix@.is_prefix_of(s@),
{
    let text = chars_of(s);
    let head = chars_of(prefix);
    if head.len() > text.len() {
        return false;
    }
    let hit = matches_at(&head, &text, 0);
    proof {
        if prefix@.is_prefix_of(s@) {
            assert(s@.subrange(0, prefix@.len() as int) =~= prefix@);
        }
    }
    hit
}

/// Whether `s` ends with `suffix`.
pub fn ends_with(s: &str, suffix: &str) -> (ends: bool)
    ensures
        ends == suffix@.is_suffix_of(s@),
{
    let text = chars_of(s);
    let tail = chars_of(suffix);
    if tail.len() > text.len() {
        return false;
    }
    let hit = matches_at(&tail, &text, text.len() - tail.len());
    proof {
        if suffix@.is_suffix_of(s@) {
            assert(s@.subrange(s@.len() - suffix@.len(), s@.len() as int) =~= suffix@);
        }
    }
    hit
}

/// What follows the first `sep` in `s`; `None` where `sep` does not occur.
pub open spec fn after_first(s: Seq<char>, sep: char) -> Option<Seq<char>> {
    match s.index_of_first(sep) {
        Some(i) => Some(s.skip(i + 1)),
        None => None,
    }
}

/// The part of `s` that follows its first `sep`.
pub fn take_after_first<'a>(s: &'a str, sep: char) -> (tail: Option<&'a str>)
    ensures
        tail is Some == after_first(s@, sep) is Some,
        tail is Some ==> tail->0@ == after_first(s@, sep)->0,
{
    let chars = chars_of(s);
    let mut at: usize = 0;
    while at < chars.len() && chars[at] != sep
        invariant
            at <= chars.len(),
            forall|j: int| 0 <= j < at ==> chars@[j] != sep,
        decreases chars.len() - at,
    {
        at += 1;
    }
    proof {
        s@.index_of_first_ensures(sep);
    }
    if at == chars.len() {
        None
    } else {
        Some(s.substring_char(at + 1, chars.len()))
    }
}

/// Whether `c` is one of the ten decimal digits.
pub open spec fn is_digit(c: char) -> bool {
    '0' <= c <= '9'
}

/// The value of the digit `c`.
pub open spec fn digit_value(c: char) -> nat {
    (c as int - '0' as int) as nat
}

/// The digit that stands for `d`, for `d` below ten.
pub open spec fn digit_char(d: nat) -> char {
    if d == 0 {
        '0'
    } else if d == 1 {
        '1'
    } else if d == 2 {
        '2'
    } else if d == 3 {
        '3'
    } else if d == 4 {
        '4'
    } else if d == 5 {
        '5'
    } else if d == 6 {
        '6'
    } else if d == 7 {
        '7'
    } else if d == 8 {
        '8'
    } else {
        '9'
    }
}

/// Whether `s` holds decimal digits and nothing else.
pub open spec fn all_digits(s: Seq<char>) -> bool {
    forall|i: int| 0 <= i < s.len() ==> is_digit(#[trigger] s[i])
}

/// The number that the digits of `s` write in base ten.
pub open spec fn digits_value(s: Seq<char>) -> nat
    decreases s.len(),
{
    if s.len() == 0 {
        0
    } else {
        digits_value(s.drop_last()) * 10 + digit_value(s.last())
    }
}

/// `s` without one leading plus sign.
pub open spec fn unsigned_part(s: Seq<char>) -> Seq<char> {
    if s.len() > 0 && s[0] == '+' {
        s.skip(1)
    } else {
        s
    }
}

/// The unsigned 32-bit number that `s` writes: an optional plus sign, then one
/// or more decimal digits whose value fits. `None` for any other text.
pub open spec fn number(s: Seq<char>) -> Option<u32> {
    let digits = unsigned_part(s);
    if digits.len() > 0 && all_digits(digits) && digits_value(digits) <= u32::MAX {
        Some(digits_value(digits) as u32)
    } else {
        None
    }
}

proof fn lemma_digits_value_grows(s: Seq<char>, n: int)
    requires
        0 <= n <= s.len(),
    ensures
        digits_value(s.take(n)) <= digits_value(s),
    decreases s.len() - n,
{
    if n == s.len() {
        assert(s.take(n) =~= s);
    } else {
        lemma_digits_value_grows(s.drop_last(), n);
        assert(s.drop_last().take(n) =~= s.take(n));
    }
}

/// Reads `s` as an unsigned 32-bit decimal number.
pub fn parse_number(s: &str) -> (value: Option<u32>)
    ensures
        value == number(s@),
{
    let chars = chars_of(s);
    let first: usize = if chars.len() > 0 && chars[0] == '+' { 1 } else { 0 };
    if first == chars.len() {
        return None;
    }
    let ghost digits = unsigned_part(s@);
    assert(digits =~= chars@.skip(first as int));
    let mut total: u64 = 0;
    let mut i: usize = first;
    while i < chars.len()
        invariant
            first <= i <= chars.len(),
            chars@ == s@,
            digits == unsigned_part(s@),
            digits == chars@.skip(first as int),
            all_digits(digits.take(i - first)),
            total == digits_value(digits.take(i - first)),
            total <= u32::MAX,
        decreases chars.len() - i,
    {
        let c = chars[i];
        assert(c == digits[i - first]);
        if c < '0' || c > '9' {
            assert(!is_digit(digits[i - first]));
            return None;
        }
        let d: u64 = (c as u32 - '0' as u32) as u64;
        let ghost longer = digits.take(i - first + 1);
        assert(longer.drop_last() =~= digits.take(i - first));
        assert(longer.last() == c);
        assert(all_digits(longer)) by {
            assert forall|j: int| 0 <= j < longer.len() implies is_digit(#[trigger] longer[j]) by {
                if j < i - first {
                    assert(digits.take(i - first)[j] == longer[j]);
                }
            }
        }
        total = total * 10 + d;
        if total > 0xffff_ffff {
            proof {
                lemma_digits_value_grows(digits, i - first + 1);
            }
            return None;
        }
        i += 1;
    }
    assert(digits.take(i - first) =~= digits);
    Some(total as u32)
}

/// The index behind the digits that stand in `s` from the index `from` on.
pub open spec fn digits_end(s: Seq<char>, from: int) -> int
    decreases s.len() - from,
{
    if 0 <= from < s.len() && is_digit(s[from]) {
        digits_end(s, from + 1)
    } else {
        from
    }
}

/// Whether `c` is the small letter `letter` or its capital.
pub open spec fn is_letter(c: char, letter: char) -> bool {
    c == letter || (letter == 'a' && c == 'A') || (letter == 'e' && c == 'E') || (letter == 'f'
        && c == 'F') || (letter == 'i' && c == 'I') || (letter == 'n' && c == 'N') || (letter
        == 't' && c == 'T') || (letter == 'y' && c == 'Y')
}

/// Whether `s` is the word `word` in small or capital letters.
pub open spec fn is_word(s: Seq<char>, word: Seq<char>) -> bool {
    s.len() == word.len() && forall|i: int| 0 <= i < s.len() ==> is_letter(s[i], #[trigger] word[i])
}

/// `s` without one leading sign.
pub open spec fn unsigned_text(s: Seq<char>) -> Seq<char> {
    if s.len() > 0 && (s[0] == '+' || s[0] == '-') {
        s.skip(1)
    } else {
        s
    }
}

/// Whether `s` is digits with at most one dot among them and at least one
/// digit, and behind them nothing or an exponent: the letter `e`, an
/// optional sign, and one or more digits.
pub open spec fn is_plain_number(s: Seq<char>) -> bool {
    let whole = digits_end(s, 0);
    let dotted = whole < s.len() && s[whole] == '.';
    let mantissa = if dotted {
        digits_end(s, whole + 1)
    } else {
        whole
    };
    let digits = if dotted {
        mantissa - 1
    } else {
        mantissa
    };
    let signed = mantissa + 1 < s.len() && (s[mantissa + 1] == '+' || s[mantissa + 1] == '-');
    let exponent = if signed {
        mantissa + 2
    } else {
        mantissa + 1
    };
    &&& digits > 0
    &&& mantissa == s.len() || {
        &&& is_letter(s[mantissa], 'e')
        &&& digits_end(s, exponent) > exponent
        &&& digits_end(s, exponent) == s.len()
    }
}

/// Whether `s` writes a number with a fraction: an optional sign, then a
/// plain number or one of the words `inf`, `infinity` and `nan`.
pub open spec fn writes_number(s: Seq<char>) -> bool {
    let rest = unsigned_text(s);
    is_plain_number(rest) || is_word(rest, "inf"@) || is_word(rest, "infinity"@) || is_word(
        rest,
        "nan"@,
    )
}

fn skip_digits(chars: &Vec<char>, from: usize) -> (end: usize)
    requires
        from <= chars.len(),
    ensures
        end == digits_end(chars@, from as int),
        from <= end <= chars.len(),
{
    let mut end: usize = from;
    while end < chars.len() && chars[end] >= '0' && chars[end] <= '9'
        invariant
            from <= end <= chars.len(),
            digits_end(chars@, from as int) == digits_end(chars@, end as int),
        decreases chars.len() - end,
    {
        end += 1;
    }
    end
}

fn letter_at(chars: &Vec<char>, at: usize, letter: char) -> (hit: bool)
    requires
        at < chars.len(),
    ensures
        hit == is_letter(chars@[at as int], letter),
{
    let c = chars[at];
    c == letter || (letter == 'a' && c == 'A') || (letter == 'e' && c == 'E') || (letter == 'f'
        && c == 'F') || (letter == 'i' && c == 'I') || (letter == 'n' && c == 'N') || (letter
        == 't' && c == 'T') || (letter == 'y' && c == 'Y')
}

fn word_from(chars: &Vec<char>, from: usize, word: &str) -> (hit: bool)
    requires
        from <= chars.len(),
    ensures
        hit == is_word(chars@.skip(from as int), word@),
{
    let letters = chars_of(word);
    if chars.len() - from != letters.len() {
        return false;
    }
    let ghost rest = chars@.skip(from as int);
    let mut i: usize = 0;
    while i < letters.len()
        invariant
            from <= chars.len(),
            letters@ == word@,
            rest == chars@.skip(from as int),
            chars.len() - from == letters.len(),
            i <= letters.len(),
            forall|j: int| 0 <= j < i ==> is_letter(rest[j], #[trigger] letters@[j]),
        decreases letters.len() - i,
    {
        assert(rest[i as int] == chars@[from + i]);
        if !letter_at(chars, from + i, letters[i]) {
            assert(!is_letter(rest[i as int], letters@[i as int]));
            return false;
        }
        i += 1;
    }
    true
}

proof fn lemma_digits_end_skip(s: Seq<char>, start: int, from: int)
    requires
        0 <= start <= from <= s.len(),
    ensures
        digits_end(s.skip(start), from - start) == digits_end(s, from) - start,
    decreases s.len() - from,
{
    if from < s.len() && is_digit(s[from]) {
        assert(s.skip(start)[from - start] == s[from]);
        lemma_digits_end_skip(s, start, from + 1);
    } else if from < s.len() {
        assert(s.skip(start)[from - start] == s[from]);
    }
}

/// Whether `s` writes a number with a fraction, as `writes_number` says.
pub fn is_number_text(s: &str) -> (ok: bool)
    ensures
        ok == writes_number(s@),
{
    let chars = chars_of(s);
    let start: usize = if chars.len() > 0 && (chars[0] == '+' || chars[0] == '-') {
        1
    } else {
        0
    };
    let ghost rest = unsigned_text(s@);
    assert(rest =~= chars@.skip(start as int));
    if word_from(&chars, start, "inf") || word_from(&chars, start, "infinity") || word_from(
        &chars,
        start,
        "nan",
    ) {
        return true;
    }
    let whole = skip_digits(&chars, start);
    let dotted = whole < chars.len() && chars[whole] == '.';
    let mantissa = if dotted {
        skip_digits(&chars, whole + 1)
    } else {
        whole
    };
    let digits = if dotted {
        mantissa - start - 1
    } else {
        mantissa - start
    };
    proof {
        lemma_digits_end_skip(chars@, start as int, start as int);
        if dotted {
            assert(rest[whole - start] == chars@[whole as int]);
            lemma_digits_end_skip(chars@, start as int, whole + 1);
        } else if whole < chars.len() {
            assert(rest[whole - start] == chars@[whole as int]);
        }
    }
    if digits == 0 {
        return false;
    }
    if mantissa == chars.len() {
        return true;
    }
    assert(rest[mantissa - start] == chars@[mantissa as int]);
    if !letter_at(&chars, mantissa, 'e') {
        return false;
    }
    let signed = mantissa + 1 < chars.len() && (chars[mantissa + 1] == '+' || chars[mantissa + 1]
        == '-');
    let exponent = if signed {
        mantissa + 2
    } else {
        mantissa + 1
    };
    proof {
        if mantissa + 1 < chars.len() {
            assert(rest[mantissa + 1 - start] == chars@[mantissa + 1]);
        }
        lemma_digits_end_skip(chars@, start as int, exponent as int);
    }
    let end = skip_digits(&chars, exponent);
    end > exponent && end == chars.len()
}

/// The decimal digits of `n`, most significant first, without leading zeros.
pub open spec fn decimal(n: nat) -> Seq<char>
    decreases n,
{
    if n < 10 {
        seq![digit_char(n)]
    } else {
        decimal(n / 10).push(digit_char(n % 10))
    }
}

fn digit_text(d: u32) -> (text: &'static str)
    requires
        d < 10,
    ensures
        text@ == seq![digit_char(d as nat)],
{
    proof {
        reveal_strlit("0");
        reveal_strlit("1");
        reveal_strlit("2");
        reveal_strlit("3");
        reveal_strlit("4");
        reveal_strlit("5");
        reveal_strlit("6");
        reveal_strlit("7");
        reveal_strlit("8");
        reveal_strlit("9");
    }
    let text = if d == 0 {
        "0"
    } else if d == 1 {
        "1"
    } else if d == 2 {
        "2"
    } else if d == 3 {
        "3"
    } else if d == 4 {
        "4"
    } else if d == 5 {
        "5"
    } else if d == 6 {
        "6"
    } else if d == 7 {
        "7"
    } else if d == 8 {
        "8"
    } else {
        "9"
    };
    assert(text@ =~= seq![digit_char(d as nat)]);
    text
}

/// Writes `n` in decimal.
pub fn render_number(n: u32) -> (text: String)
    ensures
        text@ == decimal(n as nat),
    decreases n,
{
    if n < 10 {
        digit_text(n).to_owned()
    } else {
        let mut text = render_number(n / 10);
        text.append(digit_text(n % 10));
        text
    }
}

} // verus!
