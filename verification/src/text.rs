//! Character-level text helpers shared by the prompt builders, the knowledge
//! extraction rules and the lexical similarity measures.
//!
//! Text is handled as sequences of `char`. Everything that depends on the
//! Unicode tables (case mapping, the whitespace and alphanumeric classes) is
//! delegated to the standard library and appears in contracts under a name.

use vstd::prelude::*;
use vstd::utf8::encode_utf8;

verus! {

/// What `str::to_lowercase` returns for the text `s`.
pub uninterp spec fn lowercase_of(s: Seq<char>) -> Seq<char>;

/// Whether `char::is_whitespace` holds of `c`.
pub uninterp spec fn char_is_whitespace(c: char) -> bool;

/// Whether `char::is_alphanumeric` holds of `c`.
pub uninterp spec fn char_is_alphanumeric(c: char) -> bool;

/// Appends one character to a string (`String::push`): the view grows by
/// exactly that character.
#[verifier::external_body]
pub(crate) fn push_char(s: &mut String, c: char)
    ensures
        final(s)@ == old(s)@.push(c),
{
    s.push(c)
}

/// Lower-cases a string with `str::to_lowercase`; the result is known only
/// by its name, [`lowercase_of`].
#[verifier::external_body]
pub(crate) fn to_lowercase(s: &str) -> (r: String)
    ensures
        r@ == lowercase_of(s@),
{
    s.to_lowercase()
}

/// `char::is_whitespace`, the Unicode `White_Space` property.
#[verifier::external_body]
pub(crate) fn is_whitespace(c: char) -> (r: bool)
    ensures
        r == char_is_whitespace(c),
{
    c.is_whitespace()
}

/// `char::is_alphanumeric`, the Unicode alphabetic and numeric classes.
#[verifier::external_body]
pub(crate) fn is_alphanumeric(c: char) -> (r: bool)
    ensures
        r == char_is_alphanumeric(c),
{
    c.is_alphanumeric()
}

/// The classes of characters that the scanners below run over.
#[derive(Clone, Copy, Debug, PartialEq, Eq)]
pub enum CharClass {
    /// Unicode whitespace.
    Whitespace,
    /// Anything but Unicode whitespace.
    NonWhitespace,
    /// Anything but the sentence terminators `.` and `!`.
    NonTerminator,
    /// Anything but a Unicode letter or digit.
    NonAlphanumeric,
    /// The decimal digits `0` to `9`.
    Digit,
    /// This character alone.
    Only(char),
    /// Anything but this character.
    Except(char),
}

/// Whether `c` ends a sentence.
pub open spec fn is_terminator(c: char) -> bool {
    c == '.' || c == '!'
}

/// The value of the decimal digit `c`; ten for any other character.
pub open spec fn digit_value(c: char) -> nat {
    if c == '0' {
        0
    } else if c == '1' {
        1
    } else if c == '2' {
        2
    } else if c == '3' {
        3
    } else if c == '4' {
        4
    } else if c == '5' {
        5
    } else if c == '6' {
        6
    } else if c == '7' {
        7
    } else if c == '8' {
        8
    } else if c == '9' {
        9
    } else {
        10
    }
}

/// Whether `c` is one of the decimal digits `0` to `9`.
pub open spec fn is_digit(c: char) -> bool {
    digit_value(c) < 10
}

/// Whether `c` belongs to `class`.
pub open spec fn in_class(c: char, class: CharClass) -> bool {
    match class {
        CharClass::Whitespace => char_is_whitespace(c),
        CharClass::NonWhitespace => !char_is_whitespace(c),
        CharClass::NonTerminator => !is_terminator(c),
        CharClass::NonAlphanumeric => !char_is_alphanumeric(c),
        CharClass::Digit => is_digit(c),
        CharClass::Only(x) => c == x,
        CharClass::Except(x) => c != x,
    }
}

/// The length of the longest prefix of `s` made of characters of `class`.
pub open spec fn prefix_len(s: Seq<char>, class: CharClass) -> nat
    decreases s.len(),
{
    if s.len() > 0 && in_class(s[0], class) {
        1 + prefix_len(s.drop_first(), class)
    } else {
        0
    }
}

/// The length of the longest suffix of `s` made of characters of `class`.
pub open spec fn suffix_len(s: Seq<char>, class: CharClass) -> nat
    decreases s.len(),
{
    if s.len() > 0 && in_class(s.last(), class) {
        1 + suffix_len(s.drop_last(), class)
    } else {
        0
    }
}

/// `s` without its leading and trailing whitespace.
pub open spec fn trim_of(s: Seq<char>) -> Seq<char> {
    let t = s.skip(prefix_len(s, CharClass::Whitespace) as int);
    t.take(t.len() - suffix_len(t, CharClass::Whitespace))
}

/// `s` without its leading and trailing characters that are neither letters
/// nor digits.
pub open spec fn strip_non_alphanumeric(s: Seq<char>) -> Seq<char> {
    let t = s.skip(prefix_len(s, CharClass::NonAlphanumeric) as int);
    t.take(t.len() - suffix_len(t, CharClass::NonAlphanumeric))
}

/// The pieces of `s` between sentence terminators, empty pieces included:
/// a text with `n` terminators has `n + 1` pieces.
pub open spec fn sentences_of(s: Seq<char>) -> Seq<Seq<char>>
    decreases s.len(),
{
    let k = prefix_len(s, CharClass::NonTerminator) as int;
    if k < s.len() {
        seq![s.take(k)] + sentences_of(s.skip(k + 1))
    } else {
        seq![s]
    }
}

/// The maximal runs of non-whitespace characters of `s`, in order.
pub open spec fn words_of(s: Seq<char>) -> Seq<Seq<char>>
    decreases s.len(),
{
    if s.len() == 0 {
        Seq::empty()
    } else if char_is_whitespace(s[0]) {
        words_of(s.drop_first())
    } else {
        let k = prefix_len(s, CharClass::NonWhitespace) as int;
        if 0 < k < s.len() {
            seq![s.take(k)] + words_of(s.skip(k))
        } else {
            seq![s]
        }
    }
}

/// The characters of `s` that are letters or digits, in order.
pub open spec fn alphanumerics_of(s: Seq<char>) -> Seq<char> {
    s.filter(|c: char| char_is_alphanumeric(c))
}

/// The last `n` characters of `s`, or all of `s` if it has fewer.
pub open spec fn tail_of(s: Seq<char>, n: nat) -> Seq<char> {
    if s.len() <= n {
        s
    } else {
        s.skip(s.len() - n)
    }
}

/// The first `n` characters of `s`, or all of `s` if it has fewer.
pub open spec fn head_of(s: Seq<char>, n: nat) -> Seq<char> {
    if s.len() <= n {
        s
    } else {
        s.take(n as int)
    }
}

/// Whether `needle` stands in `hay` at position `i`.
pub open spec fn occurs_at(hay: Seq<char>, needle: Seq<char>, i: int) -> bool {
    0 <= i && i + needle.len() <= hay.len() && hay.subrange(i, i + needle.len()) == needle
}

/// Whether `needle` stands somewhere in `hay`.
pub open spec fn has_subseq(hay: Seq<char>, needle: Seq<char>) -> bool {
    exists|i: int| occurs_at(hay, needle, i)
}

/// Whether `hay` begins with `needle`.
pub open spec fn has_prefix(hay: Seq<char>, needle: Seq<char>) -> bool {
    occurs_at(hay, needle, 0)
}

/// The length of `s` in UTF-8 bytes, as `str::len` reports it.
pub open spec fn byte_len(s: Seq<char>) -> usize {
    encode_utf8(s).len() as usize
}

/// The part of `s` from its first `open` to its last `close`, both
/// included, if both occur and in that order.
pub open spec fn enclosed(s: Seq<char>, open: char, close: char) -> Option<Seq<char>> {
    let start = prefix_len(s, CharClass::Except(open)) as int;
    let end = s.len() - suffix_len(s, CharClass::Except(close));
    if start < s.len() && 0 < end && start < end {
        Some(s.subrange(start, end))
    } else {
        None
    }
}

/// The views of a vector of character vectors.
pub open spec fn views_of(v: Seq<Vec<char>>) -> Seq<Seq<char>> {
    Seq::new(v.len(), |i: int| v[i]@)
}

/// The views of a vector of strings.
pub open spec fn string_views(v: Seq<String>) -> Seq<Seq<char>> {
    Seq::new(v.len(), |i: int| v[i]@)
}

/// The view of an optional string.
pub open spec fn optional_view(s: Option<String>) -> Option<Seq<char>> {
    match s {
        Some(text) => Some(text@),
        None => None,
    }
}

/// A prefix of `k` characters of `class` that cannot be extended has length
/// `prefix_len`.
pub proof fn lemma_prefix_len(s: Seq<char>, class: CharClass, k: int)
    requires
        0 <= k <= s.len(),
        forall|j: int| 0 <= j < k ==> in_class(#[trigger] s[j], class),
        k == s.len() || !in_class(s[k], class),
    ensures
        prefix_len(s, class) == k,
    decreases k,
{
    if k > 0 {
        let t = s.drop_first();
        assert forall|j: int| 0 <= j < k - 1 implies in_class(#[trigger] t[j], class) by {
            assert(t[j] == s[j + 1]);
        }
        if k < s.len() {
            assert(t[k - 1] == s[k]);
        }
        lemma_prefix_len(t, class, k - 1);
    }
}

/// A suffix of `k` characters of `class` that cannot be extended has length
/// `suffix_len`.
pub proof fn lemma_suffix_len(s: Seq<char>, class: CharClass, k: int)
    requires
        0 <= k <= s.len(),
        forall|j: int| s.len() - k <= j < s.len() ==> in_class(#[trigger] s[j], class),
        k == s.len() || !in_class(s[s.len() - k - 1], class),
    ensures
        suffix_len(s, class) == k,
    decreases k,
{
    if k > 0 {
        let t = s.drop_last();
        assert forall|j: int| t.len() - (k - 1) <= j < t.len() implies in_class(
            #[trigger] t[j],
            class,
        ) by {
            assert(t[j] == s[j]);
        }
        if k < s.len() {
            assert(t[t.len() - (k - 1) - 1] == s[s.len() - k - 1]);
        }
        lemma_suffix_len(t, class, k - 1);
    }
}

/// `prefix_len` never exceeds the length of the text.
pub proof fn lemma_prefix_len_bound(s: Seq<char>, class: CharClass)
    ensures
        prefix_len(s, class) <= s.len(),
    decreases s.len(),
{
    if s.len() > 0 && in_class(s[0], class) {
        lemma_prefix_len_bound(s.drop_first(), class);
    }
}

/// The decimal digit for `d`, which is below ten.
pub open spec fn digit_char(d: nat) -> char {
    if d == 0 {
        '0'
    } else if d == 1 {
        '1'
    } else if d == 2 {
        '2'
    } else if d == 3 {
        '3'
    } else if d == 4 {
        '4'
    } else if d == 5 {
        '5'
    } else if d == 6 {
        '6'
    } else if d == 7 {
        '7'
    } else if d == 8 {
        '8'
    } else {
        '9'
    }
}

/// The decimal numeral of `n`, without leading zeros.
pub open spec fn decimal_of(n: nat) -> Seq<char>
    decreases n,
{
    if n < 10 {
        seq![digit_char(n)]
    } else {
        decimal_of(n / 10).push(digit_char(n % 10))
    }
}

/// The decimal digit for `d`.
pub fn digit(d: u8) -> (c: char)
    requires
        d < 10,
    ensures
        c == digit_char(d as nat),
{
    if d == 0 {
        '0'
    } else if d == 1 {
        '1'
    } else if d == 2 {
        '2'
    } else if d == 3 {
        '3'
    } else if d == 4 {
        '4'
    } else if d == 5 {
        '5'
    } else if d == 6 {
        '6'
    } else if d == 7 {
        '7'
    } else if d == 8 {
        '8'
    } else {
        '9'
    }
}

/// The decimal numeral of `n`.
pub fn decimal_chars(n: u64) -> (r: Vec<char>)
    ensures
        r@ == decimal_of(n as nat),
    decreases n,
{
    if n < 10 {
        let mut r: Vec<char> = Vec::new();
        r.push(digit(n as u8));
        r
    } else {
        let mut r = decimal_chars(n / 10);
        r.push(digit((n % 10) as u8));
        r
    }
}

/// A copy of a vector of strings.
pub fn clone_strings(v: &Vec<String>) -> (r: Vec<String>)
    ensures
        string_views(r@) == string_views(v@),
        r@.len() == v@.len(),
{
    let mut r: Vec<String> = Vec::new();
    let mut i: usize = 0;
    while i < v.len()
        invariant
            i <= v.len(),
            r@.len() == i,
            forall|k: int| 0 <= k < i ==> (#[trigger] r@[k])@ == v@[k]@,
        decreases v.len() - i,
    {
        r.push(v[i].clone());
        i += 1;
    }
    proof {
        assert(string_views(r@) =~= string_views(v@));
    }
    r
}

/// A copy of a slice of strings.
pub fn strings_of(v: &[String]) -> (r: Vec<String>)
    ensures
        string_views(r@) == string_views(v@),
        r@.len() == v@.len(),
{
    let mut r: Vec<String> = Vec::new();
    let mut i: usize = 0;
    while i < v.len()
        invariant
            i <= v.len(),
            r@.len() == i,
            forall|k: int| 0 <= k < i ==> (#[trigger] r@[k])@ == v@[k]@,
        decreases v.len() - i,
    {
        r.push(v[i].clone());
        i += 1;
    }
    proof {
        assert(string_views(r@) =~= string_views(v@));
    }
    r
}

/// A copy of an optional string.
pub fn clone_optional(s: &Option<String>) -> (r: Option<String>)
    ensures
        optional_view(r) == optional_view(*s),
{
    match s {
        Some(text) => Some(text.clone()),
        None => None,
    }
}

/// A text occurs between what stands before and after it.
pub proof fn lemma_occurs_between(before: Seq<char>, needle: Seq<char>, after: Seq<char>)
    ensures
        occurs_at(before + needle + after, needle, before.len() as int),
        has_subseq(before + needle + after, needle),
{
    let whole = before + needle + after;
    assert(whole.subrange(before.len() as int, (before.len() + needle.len()) as int) =~= needle);
}

/// What occurs in a part occurs in the whole, further on by the part's
/// position.
pub proof fn lemma_occurs_within(
    whole: Seq<char>,
    part: Seq<char>,
    needle: Seq<char>,
    at: int,
    offset: int,
)
    requires
        occurs_at(whole, part, at),
        occurs_at(part, needle, offset),
    ensures
        occurs_at(whole, needle, at + offset),
        has_subseq(whole, needle),
{
    let inner = whole.subrange(at, at + part.len());
    assert(whole.subrange(at + offset, at + offset + needle.len()) =~= inner.subrange(
        offset,
        offset + needle.len(),
    ));
    assert(occurs_at(whole, needle, at + offset));
}

/// Where a text stands in a whole and the whole holds a character `c` of
/// the text nowhere else, the text stands nowhere further on: its `c`
/// would then be found beyond its own place.
proof fn lemma_no_later_occurrence(
    whole: Seq<char>,
    part: Seq<char>,
    at: int,
    p: int,
    c: char,
    k: int,
)
    requires
        occurs_at(whole, part, at),
        occurs_at(whole, part, p),
        p >= at,
        0 <= k < part.len(),
        part[k] == c,
        forall|q: int| 0 <= q < whole.len() && #[trigger] whole[q] == c ==> at <= q < at + part.len(),
    ensures
        p == at,
    decreases part.len() - k,
{
    if p != at {
        assert(whole.subrange(p, p + part.len())[k] == whole[p + k]);
        let next = p + k - at;
        assert(whole.subrange(at, at + part.len())[next] == whole[at + next]);
        lemma_no_later_occurrence(whole, part, at, p, c, next);
    }
}

/// Where a text stands in a whole and the whole holds a character `c` of
/// the text nowhere else, the text stands nowhere earlier either.
proof fn lemma_no_earlier_occurrence(
    whole: Seq<char>,
    part: Seq<char>,
    at: int,
    p: int,
    c: char,
    k: int,
)
    requires
        occurs_at(whole, part, at),
        occurs_at(whole, part, p),
        p <= at,
        0 <= k < part.len(),
        part[k] == c,
        forall|q: int| 0 <= q < whole.len() && #[trigger] whole[q] == c ==> at <= q < at + part.len(),
    ensures
        p == at,
    decreases k,
{
    if p != at {
        assert(whole.subrange(p, p + part.len())[k] == whole[p + k]);
        let next = p + k - at;
        assert(whole.subrange(at, at + part.len())[next] == whole[at + next]);
        lemma_no_earlier_occurrence(whole, part, at, p, c, next);
    }
}

/// A text that holds a character which the whole holds nowhere else occurs
/// in the whole exactly once: wherever it occurs is where it stands.
pub proof fn lemma_marked_text_occurs_once(
    whole: Seq<char>,
    part: Seq<char>,
    at: int,
    c: char,
    p: int,
)
    requires
        occurs_at(whole, part, at),
        part.contains(c),
        forall|q: int| 0 <= q < whole.len() && #[trigger] whole[q] == c ==> at <= q < at + part.len(),
        occurs_at(whole, part, p),
    ensures
        p == at,
{
    let k = choose|k: int| 0 <= k < part.len() && part[k] == c;
    if p >= at {
        lemma_no_later_occurrence(whole, part, at, p, c, k);
    } else {
        lemma_no_earlier_occurrence(whole, part, at, p, c, k);
    }
}

/// The value of `c` if it is a decimal digit.
pub fn digit_of(c: char) -> (r: Option<u8>)
    ensures
        match r {
            Some(d) => is_digit(c) && d == digit_value(c),
            None => !is_digit(c),
        },
{
    if c == '0' {
        Some(0)
    } else if c == '1' {
        Some(1)
    } else if c == '2' {
        Some(2)
    } else if c == '3' {
        Some(3)
    } else if c == '4' {
        Some(4)
    } else if c == '5' {
        Some(5)
    } else if c == '6' {
        Some(6)
    } else if c == '7' {
        Some(7)
    } else if c == '8' {
        Some(8)
    } else if c == '9' {
        Some(9)
    } else {
        None
    }
}

/// Whether `c` belongs to `class`.
pub fn char_in_class(c: char, class: CharClass) -> (r: bool)
    ensures
        r == in_class(c, class),
{
    match class {
        CharClass::Whitespace => is_whitespace(c),
        CharClass::NonWhitespace => !is_whitespace(c),
        CharClass::NonTerminator => !(c == '.' || c == '!'),
        CharClass::NonAlphanumeric => !is_alphanumeric(c),
        CharClass::Digit => digit_of(c).is_some(),
        CharClass::Only(x) => c == x,
        CharClass::Except(x) => c != x,
    }
}

/// The characters of `s`, in order.
pub fn chars_of(s: &str) -> (v: Vec<char>)
    ensures
        v@ == s@,
{
    let mut v: Vec<char> = Vec::new();
    for c in it: s.chars()
        invariant
            v@ == it.seq().take(it.index() as int),
            it.seq() == s@,
    {
        v.push(c);
    }
    v
}

/// The string made of the characters of `v`, in order.
pub fn string_of(v: &Vec<char>) -> (s: String)
    ensures
        s@ == v@,
{
    let mut s = String::new();
    let mut i: usize = 0;
    while i < v.len()
        invariant
            i <= v.len(),
            s@ == v@.take(i as int),
        decreases v.len() - i,
    {
        push_char(&mut s, v[i]);
        i += 1;
    }
    s
}

/// Appends the characters of `tail` to `text`.
pub fn push_chars(text: &mut Vec<char>, tail: &Vec<char>)
    ensures
        final(text)@ == old(text)@ + tail@,
{
    let ghost before = text@;
    let mut i: usize = 0;
    while i < tail.len()
        invariant
            i <= tail.len(),
            text@ == before + tail@.take(i as int),
        decreases tail.len() - i,
    {
        text.push(tail[i]);
        i += 1;
    }
}

/// Appends the characters of the string `tail` to `text`.
pub fn push_str_chars(text: &mut Vec<char>, tail: &str)
    ensures
        final(text)@ == old(text)@ + tail@,
{
    let t = chars_of(tail);
    push_chars(text, &t);
}

/// The characters of `v` from `from` up to `to`.
pub fn slice_of(v: &Vec<char>, from: usize, to: usize) -> (r: Vec<char>)
    requires
        from <= to <= v.len(),
    ensures
        r@ == v@.subrange(from as int, to as int),
{
    let mut r: Vec<char> = Vec::new();
    let mut i: usize = from;
    while i < to
        invariant
            from <= i <= to,
            to <= v.len(),
            r@ == v@.subrange(from as int, i as int),
        decreases to - i,
    {
        r.push(v[i]);
        i += 1;
    }
    r
}

/// The end of the run of characters of `class` that starts at `start`.
pub fn scan_forward(v: &Vec<char>, start: usize, class: CharClass) -> (end: usize)
    requires
        start <= v.len(),
    ensures
        start <= end <= v.len(),
        end - start == prefix_len(v@.skip(start as int), class),
{
    let mut end: usize = start;
    while end < v.len() && char_in_class(v[end], class)
        invariant
            start <= end <= v.len(),
            forall|j: int| start <= j < end ==> in_class(#[trigger] v@[j], class),
        decreases v.len() - end,
    {
        end += 1;
    }
    proof {
        let t = v@.skip(start as int);
        assert forall|j: int| 0 <= j < end - start implies in_class(#[trigger] t[j], class) by {
            assert(t[j] == v@[start + j]);
        }
        lemma_prefix_len(t, class, end - start);
    }
    end
}

/// The start of the run of characters of `class` that ends at `end`, looking
/// no further back than `floor`.
pub fn scan_backward(v: &Vec<char>, floor: usize, end: usize, class: CharClass) -> (start: usize)
    requires
        floor <= end <= v.len(),
    ensures
        floor <= start <= end,
        end - start == suffix_len(v@.subrange(floor as int, end as int), class),
{
    let mut start: usize = end;
    while start > floor && char_in_class(v[start - 1], class)
        invariant
            floor <= start <= end <= v.len(),
            forall|j: int| start <= j < end ==> in_class(#[trigger] v@[j], class),
        decreases start,
    {
        start -= 1;
    }
    proof {
        let t = v@.subrange(floor as int, end as int);
        assert forall|j: int| t.len() - (end - start) <= j < t.len() implies in_class(
            #[trigger] t[j],
            class,
        ) by {
            assert(t[j] == v@[floor + j]);
        }
        if start > floor {
            assert(t[t.len() - (end - start) - 1] == v@[start - 1]);
        }
        lemma_suffix_len(t, class, end - start);
    }
    start
}

/// `v` without the leading and trailing characters of `class`.
fn strip_class(v: &Vec<char>, class: CharClass) -> (r: Vec<char>)
    ensures
        r@ == ({
            let t = v@.skip(prefix_len(v@, class) as int);
            t.take(t.len() - suffix_len(t, class))
        }),
{
    let from = scan_forward(v, 0, class);
    let to = scan_backward(v, from, v.len(), class);
    proof {
        assert(v@.skip(0) == v@);
        assert(v@.subrange(from as int, v.len() as int) == v@.skip(from as int));
        let t = v@.skip(from as int);
        assert(t.take(t.len() - suffix_len(t, class)) == v@.subrange(from as int, to as int));
    }
    slice_of(v, from, to)
}

/// `v` without its leading and trailing whitespace.
pub fn trim(v: &Vec<char>) -> (r: Vec<char>)
    ensures
        r@ == trim_of(v@),
{
    strip_class(v, CharClass::Whitespace)
}

/// `v` without its leading and trailing characters that are neither letters
/// nor digits.
pub fn strip_punctuation(v: &Vec<char>) -> (r: Vec<char>)
    ensures
        r@ == strip_non_alphanumeric(v@),
{
    strip_class(v, CharClass::NonAlphanumeric)
}

/// Splits `v` at every `.` and `!`.
pub fn split_sentences(v: &Vec<char>) -> (r: Vec<Vec<char>>)
    ensures
        views_of(r@) == sentences_of(v@),
{
    let mut r: Vec<Vec<char>> = Vec::new();
    let mut start: usize = 0;
    proof {
        assert(v@.skip(0) == v@);
        assert(views_of(r@) + sentences_of(v@) == sentences_of(v@));
    }
    loop
        invariant_except_break
            start <= v.len(),
            sentences_of(v@) == views_of(r@) + sentences_of(v@.skip(start as int)),
        ensures
            views_of(r@) == sentences_of(v@),
        decreases v.len() - start,
    {
        let end = scan_forward(v, start, CharClass::NonTerminator);
        let piece = slice_of(v, start, end);
        let ghost rest = v@.skip(start as int);
        let ghost before = views_of(r@);
        proof {
            assert(rest.take(end - start) == v@.subrange(start as int, end as int));
        }
        r.push(piece);
        proof {
            assert(views_of(r@) == before + seq![piece@]);
        }
        if end < v.len() {
            proof {
                assert(rest.skip(end - start + 1) == v@.skip(end + 1));
            }
            start = end + 1;
        } else {
            proof {
                assert(rest.take(end - start) == rest);
            }
            break;
        }
    }
    r
}

/// Splits `v` into its whitespace-separated words.
pub fn split_words(v: &Vec<char>) -> (r: Vec<Vec<char>>)
    ensures
        views_of(r@) == words_of(v@),
{
    let mut r: Vec<Vec<char>> = Vec::new();
    let mut start: usize = 0;
    proof {
        assert(v@.skip(0) == v@);
        assert(views_of(r@) + words_of(v@) == words_of(v@));
    }
    while start < v.len()
        invariant
            start <= v.len(),
            words_of(v@) == views_of(r@) + words_of(v@.skip(start as int)),
        decreases v.len() - start,
    {
        let ghost rest = v@.skip(start as int);
        if is_whitespace(v[start]) {
            proof {
                assert(rest.drop_first() == v@.skip(start + 1));
            }
            start += 1;
        } else {
            let end = scan_forward(v, start, CharClass::NonWhitespace);
            let piece = slice_of(v, start, end);
            let ghost before = views_of(r@);
            proof {
                assert(rest.take(end - start) == v@.subrange(start as int, end as int));
                assert(rest.skip(end - start) == v@.skip(end as int));
                assert(end > start) by {
                    assert(in_class(rest[0], CharClass::NonWhitespace));
                }
                if end == v.len() {
                    assert(rest.take(end - start) == rest);
                    assert(words_of(v@.skip(end as int)) == Seq::<Seq<char>>::empty());
                }
            }
            r.push(piece);
            proof {
                assert(views_of(r@) == before + seq![piece@]);
            }
            start = end;
        }
    }
    proof {
        assert(words_of(v@.skip(start as int)) == Seq::<Seq<char>>::empty());
    }
    r
}

/// The part of `v` from its first `open` to its last `close`.
pub fn enclosed_chars(v: &Vec<char>, open: char, close: char) -> (r: Option<Vec<char>>)
    ensures
        match r {
            Some(inner) => enclosed(v@, open, close) == Some(inner@),
            None => enclosed(v@, open, close) is None,
        },
{
    let start = scan_forward(v, 0, CharClass::Except(open));
    let end = scan_backward(v, 0, v.len(), CharClass::Except(close));
    proof {
        assert(v@.skip(0) == v@);
        assert(v@.subrange(0, v.len() as int) == v@);
    }
    if start < v.len() && 0 < end && start < end {
        Some(slice_of(v, start, end))
    } else {
        None
    }
}

/// Keeps the letters and digits of `v`.
pub fn keep_alphanumerics(v: &Vec<char>) -> (r: Vec<char>)
    ensures
        r@ == alphanumerics_of(v@),
{
    let mut r: Vec<char> = Vec::new();
    let ghost keep = |c: char| char_is_alphanumeric(c);
    let mut i: usize = 0;
    while i < v.len()
        invariant
            i <= v.len(),
            keep == (|c: char| char_is_alphanumeric(c)),
            r@ == v@.take(i as int).filter(keep),
        decreases v.len() - i,
    {
        proof {
            let next = v@.take(i + 1);
            assert(next.drop_last() == v@.take(i as int));
            reveal(Seq::filter);
        }
        if is_alphanumeric(v[i]) {
            r.push(v[i]);
        }
        i += 1;
    }
    proof {
        assert(v@.take(v.len() as int) == v@);
    }
    r
}

/// The last `n` characters of `v`.
pub fn tail_chars(v: &Vec<char>, n: usize) -> (r: Vec<char>)
    ensures
        r@ == tail_of(v@, n as nat),
{
    if v.len() <= n {
        let r = slice_of(v, 0, v.len());
        proof {
            assert(v@.subrange(0, v.len() as int) == v@);
        }
        r
    } else {
        slice_of(v, v.len() - n, v.len())
    }
}

/// The first `n` characters of `v`.
pub fn head_chars(v: &Vec<char>, n: usize) -> (r: Vec<char>)
    ensures
        r@ == head_of(v@, n as nat),
{
    if v.len() <= n {
        let r = slice_of(v, 0, v.len());
        proof {
            assert(v@.subrange(0, v.len() as int) == v@);
        }
        r
    } else {
        slice_of(v, 0, n)
    }
}

/// Lower-cases `v` as `str::to_lowercase` does.
pub fn lowercase(v: &Vec<char>) -> (r: Vec<char>)
    ensures
        r@ == lowercase_of(v@),
{
    let s = string_of(v);
    let lower = to_lowercase(s.as_str());
    chars_of(lower.as_str())
}

/// The length of `v` in UTF-8 bytes.
pub fn utf8_len(v: &Vec<char>) -> (n: usize)
    ensures
        n == byte_len(v@),
{
    let s = string_of(v);
    s.as_str().len()
}

/// Whether `needle` stands in `hay` at position `i`.
pub fn matches_at(hay: &Vec<char>, needle: &Vec<char>, i: usize) -> (r: bool)
    ensures
        r == occurs_at(hay@, needle@, i as int),
{
    if needle.len() > hay.len() || i > hay.len() - needle.len() {
        return false;
    }
    let mut j: usize = 0;
    while j < needle.len()
        invariant
            j <= needle.len(),
            i + needle.len() <= hay.len(),
            forall|k: int| 0 <= k < j ==> hay@[i + k] == needle@[k],
        decreases needle.len() - j,
    {
        if hay[i + j] != needle[j] {
            proof {
                let window = hay@.subrange(i as int, i + needle.len());
                assert(window[j as int] == hay@[i + j]);
            }
            return false;
        }
        j += 1;
    }
    proof {
        assert(hay@.subrange(i as int, i + needle.len()) =~= needle@);
    }
    true
}

/// Whether `needle` stands somewhere in `hay`.
pub fn contains_chars(hay: &Vec<char>, needle: &Vec<char>) -> (r: bool)
    ensures
        r == has_subseq(hay@, needle@),
{
    if needle.len() > hay.len() {
        return false;
    }
    let last = hay.len() - needle.len();
    let mut i: usize = 0;
    while i < last
        invariant
            i <= last,
            last == hay.len() - needle.len(),
            needle.len() <= hay.len(),
            forall|k: int| 0 <= k < i ==> !occurs_at(hay@, needle@, k),
        decreases last - i,
    {
        if matches_at(hay, needle, i) {
            return true;
        }
        i += 1;
    }
    matches_at(hay, needle, last)
}

/// Whether `hay` begins with `needle`.
pub fn starts_with_chars(hay: &Vec<char>, needle: &Vec<char>) -> (r: bool)
    ensures
        r == has_prefix(hay@, needle@),
{
    matches_at(hay, needle, 0)
}

/// Whether two character vectors hold the same text.
pub fn same_chars(a: &Vec<char>, b: &Vec<char>) -> (r: bool)
    ensures
        r == (a@ == b@),
{
    if a.len() != b.len() {
        return false;
    }
    let r = matches_at(a, b, 0);
    proof {
        assert(a@.subrange(0, a.len() as int) == a@);
    }
    r
}

} // verus!
