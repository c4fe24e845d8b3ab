//! Text primitives shared by every stage: decimal numerals, substring search and
//! the two path splits that asset references need. Everything is stated over
//! `Seq<char>`, the view of `str` and `String`.

use vstd::prelude::*;
use vstd::std_specs::iter::IteratorSpec;

verus! {

/// `String::push` of std. Taken on trust, as its documentation says it:
/// the string afterwards is the string before with `ch` at its end.
pub assume_specification[ String::push ](s: &mut String, ch: char)
    ensures
        final(s)@ == old(s)@.push(ch),
;

/// An ASCII decimal digit.
pub open spec fn is_digit(c: char) -> bool {
    '0' <= c && c <= '9'
}

/// The number that an ASCII decimal digit stands for.
pub open spec fn digit_value(c: char) -> nat {
    (c as int - '0' as int) as nat
}

/// The ASCII digit that stands for `d`, for `d` below ten.
pub open spec fn digit_char(d: nat) -> char {
    (d + 48) as char
}

/// Every character of `s` is an ASCII decimal digit.
pub open spec fn all_digits(s: Seq<char>) -> bool {
    forall|i: int| 0 <= i < s.len() ==> is_digit(#[trigger] s[i])
}

/// The number written by a sequence of digits, most significant first.
pub open spec fn decimal_value(s: Seq<char>) -> nat
    decreases s.len(),
{
    if s.len() == 0 {
        0
    } else {
        10 * decimal_value(s.drop_last()) + digit_value(s.last())
    }
}

/// The digits of an unsigned numeral: the text itself, less one leading `+`.
pub open spec fn numeral_digits(s: Seq<char>) -> Seq<char> {
    if s.len() > 0 && s[0] == '+' {
        s.drop_first()
    } else {
        s
    }
}

/// What reading `s` as an unsigned decimal numeral no greater than `max` gives:
/// an optional `+`, then one or more ASCII digits, leading zeros allowed.
/// Anything else, and any value above `max`, gives `None`.
pub open spec fn parsed_unsigned(s: Seq<char>, max: nat) -> Option<nat> {
    let digits = numeral_digits(s);
    if digits.len() > 0 && all_digits(digits) && decimal_value(digits) <= max {
        Some(decimal_value(digits))
    } else {
        None
    }
}

/// The shortest decimal numeral for `n`.
pub open spec fn decimal_text(n: nat) -> Seq<char>
    decreases n,
{
    if n < 10 {
        seq![digit_char(n)]
    } else {
        decimal_text(n / 10).push(digit_char(n % 10))
    }
}

/// `needle` stands in `hay` at index `i`.
pub open spec fn occurs_at(hay: Seq<char>, needle: Seq<char>, i: int) -> bool {
    0 <= i && i + needle.len() <= hay.len() && hay.subrange(i, i + needle.len()) == needle
}

/// `needle` stands somewhere in `hay`. The empty text stands in every text.
pub open spec fn contains_text(hay: Seq<char>, needle: Seq<char>) -> bool {
    exists|i: int| occurs_at(hay, needle, i)
}

/// `i` is where the first `sep` of `s` stands, or the length of `s` if it holds none.
pub open spec fn is_first_break(s: Seq<char>, sep: char, i: int) -> bool {
    &&& 0 <= i <= s.len()
    &&& forall|j: int| 0 <= j < i ==> s[j] != sep
    &&& i < s.len() ==> s[i] == sep
}

/// `i` is just behind the last `sep` of `s`, or 0 if it holds none.
pub open spec fn is_last_start(s: Seq<char>, sep: char, i: int) -> bool {
    &&& 0 <= i <= s.len()
    &&& forall|j: int| i <= j < s.len() ==> s[j] != sep
    &&& 0 < i ==> s[i - 1] == sep
}

/// The part of `s` before its first `sep`; all of `s` if it holds none.
pub open spec fn before_first(s: Seq<char>, sep: char) -> Seq<char> {
    s.take(choose|i: int| is_first_break(s, sep, i))
}

/// The part of `s` behind its last `sep`; all of `s` if it holds none.
pub open spec fn after_last(s: Seq<char>, sep: char) -> Seq<char> {
    s.skip(choose|i: int| is_last_start(s, sep, i))
}

/// A prefix of a digit sequence never writes a greater number than the whole.
proof fn lemma_decimal_value_prefix(s: Seq<char>, k: int)
    requires
        0 <= k <= s.len(),
    ensures
        decimal_value(s.take(k)) <= decimal_value(s),
    decreases s.len() - k,
{
    if k == s.len() {
        assert(s.take(k) == s);
    } else {
        assert(s.take(k + 1).drop_last() == s.take(k));
        lemma_decimal_value_prefix(s, k + 1);
    }
}

/// The numeral written for `n` is made of digits only and reads back as `n`,
/// under every bound that `n` respects.
pub proof fn lemma_decimal_text_reads_back(n: nat)
    ensures
        decimal_text(n).len() > 0,
        all_digits(decimal_text(n)),
        decimal_value(decimal_text(n)) == n,
        forall|max: nat| n <= max ==> parsed_unsigned(decimal_text(n), max) == Some(n),
    decreases n,
{
    if n < 10 {
        assert(decimal_value(decimal_text(n).drop_last()) == 0);
    } else {
        lemma_decimal_text_reads_back(n / 10);
        assert(decimal_text(n).drop_last() == decimal_text(n / 10));
    }
}

/// At most one index is the first break of `s`.
pub proof fn lemma_first_break_unique(s: Seq<char>, sep: char, i: int, k: int)
    requires
        is_first_break(s, sep, i),
        is_first_break(s, sep, k),
    ensures
        i == k,
{
}

/// At most one index is the last start of `s`.
pub proof fn lemma_last_start_unique(s: Seq<char>, sep: char, i: int, k: int)
    requires
        is_last_start(s, sep, i),
        is_last_start(s, sep, k),
    ensures
        i == k,
{
}

/// Some index is the first break of `s`, given that no `sep` stands before `k`.
proof fn lemma_first_break_from(s: Seq<char>, sep: char, k: int)
    requires
        0 <= k <= s.len(),
        forall|j: int| 0 <= j < k ==> s[j] != sep,
    ensures
        exists|i: int| is_first_break(s, sep, i),
    decreases s.len() - k,
{
    if k == s.len() || s[k] == sep {
        assert(is_first_break(s, sep, k));
    } else {
        lemma_first_break_from(s, sep, k + 1);
    }
}

/// Some index is the last start of `s`, given that no `sep` stands from `k` on.
proof fn lemma_last_start_from(s: Seq<char>, sep: char, k: int)
    requires
        0 <= k <= s.len(),
        forall|j: int| k <= j < s.len() ==> s[j] != sep,
    ensures
        exists|i: int| is_last_start(s, sep, i),
    decreases k,
{
    if k == 0 || s[k - 1] == sep {
        assert(is_last_start(s, sep, k));
    } else {
        lemma_last_start_from(s, sep, k - 1);
    }
}

/// What stands before the first `sep` is a part of `s` that begins it and
/// holds no `sep`; it is all of `s`, or `sep` follows it.
pub proof fn lemma_before_first(s: Seq<char>, sep: char)
    ensures
        before_first(s, sep).len() <= s.len(),
        before_first(s, sep) == s.take(before_first(s, sep).len() as int),
        forall|j: int| 0 <= j < before_first(s, sep).len() ==> before_first(s, sep)[j] != sep,
        before_first(s, sep).len() < s.len() ==> s[before_first(s, sep).len() as int] == sep,
{
    lemma_first_break_from(s, sep, 0);
}

/// What stands behind the last `sep` is a part of `s` that ends it and holds
/// no `sep`; it is all of `s`, or `sep` stands before it.
pub proof fn lemma_after_last(s: Seq<char>, sep: char)
    ensures
        after_last(s, sep).len() <= s.len(),
        after_last(s, sep) == s.skip(s.len() - after_last(s, sep).len()),
        forall|j: int| 0 <= j < after_last(s, sep).len() ==> after_last(s, sep)[j] != sep,
        after_last(s, sep).len() < s.len() ==> s[s.len() - after_last(s, sep).len() - 1] == sep,
{
    lemma_last_start_from(s, sep, s.len() as int);
}

/// The characters of `s`, in order, as a vector that can be indexed in constant time.
pub fn chars_of(s: &str) -> (v: Vec<char>)
    ensures
        v@ == s@,
{
    let mut v: Vec<char> = Vec::new();
    for c in it: s.chars()
        invariant
            v@ == it.seq().take(it.index()),
            it.seq() == s@,
    {
        v.push(c);
    }
    v
}

/// The string whose characters are `chars[from..to]`.
pub(crate) fn string_of(chars: &Vec<char>, from: usize, to: usize) -> (s: String)
    requires
        from <= to <= chars.len(),
    ensures
        s@ == chars@.subrange(from as int, to as int),
{
    let mut s = String::new();
    let mut i: usize = from;
    while i < to
        invariant
            from <= i <= to <= chars.len(),
            s@ == chars@.subrange(from as int, i as int),
        decreases to - i,
    {
        s.push(chars[i]);
        i += 1;
    }
    s
}

/// Whether two vectors hold the same characters.
pub fn same_chars(a: &Vec<char>, b: &Vec<char>) -> (same: bool)
    ensures
        same == (a@ == b@),
{
    if a.len() != b.len() {
        return false;
    }
    let mut i: usize = 0;
    while i < a.len()
        invariant
            i <= a.len(),
            a.len() == b.len(),
            a@.take(i as int) == b@.take(i as int),
        decreases a.len() - i,
    {
        if a[i] != b[i] {
            return false;
        }
        i += 1;
    }
    assert(a@.take(a.len() as int) == a@);
    assert(b@.take(b.len() as int) == b@);
    true
}

/// Whether two texts are the same.
pub fn same_text(a: &str, b: &str) -> (same: bool)
    ensures
        same == (a@ == b@),
{
    let left = chars_of(a);
    let right = chars_of(b);
    same_chars(&left, &right)
}

/// Reads `chars` as an unsigned decimal numeral no greater than `max`.
pub fn parse_unsigned(chars: &Vec<char>, max: u64) -> (r: Option<u64>)
    ensures
        r matches Some(n) ==> parsed_unsigned(chars@, max as nat) == Some(n as nat),
        r is None ==> parsed_unsigned(chars@, max as nat) is None,
{
    let start: usize = if chars.len() > 0 && chars[0] == '+' {
        1
    } else {
        0
    };
    let ghost digits = numeral_digits(chars@);
    if start == chars.len() {
        return None;
    }
    let mut acc: u64 = 0;
    let mut i: usize = start;
    while i < chars.len()
        invariant
            start <= i <= chars.len(),
            digits == chars@.skip(start as int),
            digits == numeral_digits(chars@),
            all_digits(digits.take(i - start)),
            acc == decimal_value(digits.take(i - start)),
            acc <= max,
        decreases chars.len() - i,
    {
        let c = chars[i];
        let ghost upto = digits.take(i - start + 1);
        assert(upto.drop_last() == digits.take(i - start));
        assert(upto.last() == c);
        if !(c >= '0' && c <= '9') {
            return None;
        }
        let d: u64 = (c as u32 - '0' as u32) as u64;
        if acc > max / 10 || d > max - acc * 10 {
            proof {
                lemma_decimal_value_prefix(digits, i - start + 1);
            }
            return None;
        }
        acc = acc * 10 + d;
        i += 1;
    }
    assert(digits.take(i - start) == digits);
    Some(acc)
}

/// Reads `s` as an unsigned 16-bit decimal numeral.
pub fn parse_u16(s: &str) -> (r: Option<u16>)
    ensures
        r matches Some(n) ==> parsed_unsigned(s@, u16::MAX as nat) == Some(n as nat),
        r is None ==> parsed_unsigned(s@, u16::MAX as nat) is None,
{
    let chars = chars_of(s);
    match parse_unsigned(&chars, 65535) {
        Some(n) => Some(n as u16),
        None => None,
    }
}

/// Reads `s` as an unsigned decimal numeral that fits the machine word.
pub fn parse_usize(s: &str) -> (r: Option<usize>)
    ensures
        r matches Some(n) ==> parsed_unsigned(s@, usize::MAX as nat) == Some(n as nat),
        r is None ==> parsed_unsigned(s@, usize::MAX as nat) is None,
{
    let chars = chars_of(s);
    match parse_unsigned(&chars, usize::MAX as u64) {
        Some(n) => Some(n as usize),
        None => None,
    }
}

/// Appends the shortest decimal numeral for `n` to `out`.
pub fn push_decimal(out: &mut String, n: usize)
    ensures
        final(out)@ == old(out)@ + decimal_text(n as nat),
    decreases n,
{
    if n >= 10 {
        push_decimal(out, n / 10);
    }
    let d: u8 = (n % 10) as u8;
    out.push((48u8 + d) as char);
    assert(n >= 10 ==> (old(out)@ + decimal_text((n / 10) as nat)).push(
        digit_char((n % 10) as nat),
    ) == old(out)@ + decimal_text(n as nat));
}

/// The shortest decimal numeral for `n`.
pub fn decimal_string(n: usize) -> (s: String)
    ensures
        s@ == decimal_text(n as nat),
{
    let mut s = String::new();
    push_decimal(&mut s, n);
    s
}

/// Whether `needle` stands somewhere in `hay`.
pub fn contains_chars(hay: &Vec<char>, needle: &Vec<char>) -> (found: bool)
    ensures
        found == contains_text(hay@, needle@),
{
    if needle.len() > hay.len() {
        return false;
    }
    let last: usize = hay.len() - needle.len();
    let mut i: usize = 0;
    while i <= last
        invariant
            i <= last + 1,
            last == hay.len() - needle.len(),
            forall|k: int| 0 <= k < i ==> !occurs_at(hay@, needle@, k),
        decreases last + 1 - i,
    {
        let mut j: usize = 0;
        while j < needle.len() && hay[i + j] == needle[j]
            invariant
                i <= last,
                last == hay.len() - needle.len(),
                j <= needle.len(),
                hay@.subrange(i as int, i + j) == needle@.take(j as int),
            decreases needle.len() - j,
        {
            assert(hay@.subrange(i as int, i + j + 1) == hay@.subrange(i as int, i + j).push(
                hay@[i + j],
            ));
            j += 1;
        }
        if j == needle.len() {
            assert(needle@.take(j as int) == needle@);
            assert(occurs_at(hay@, needle@, i as int));
            return true;
        }
        i += 1;
    }
    false
}

/// Whether the text `needle` stands somewhere in the text `hay`.
pub fn text_contains(hay: &str, needle: &str) -> (found: bool)
    ensures
        found == contains_text(hay@, needle@),
{
    let h = chars_of(hay);
    let n = chars_of(needle);
    contains_chars(&h, &n)
}

/// The index just behind the last `sep` in `chars`, or 0 if there is none.
pub fn last_start(chars: &Vec<char>, sep: char) -> (i: usize)
    ensures
        is_last_start(chars@, sep, i as int),
{
    let mut i: usize = chars.len();
    while i > 0 && chars[i - 1] != sep
        invariant
            i <= chars.len(),
            forall|j: int| i <= j < chars.len() ==> chars@[j] != sep,
        decreases i,
    {
        i -= 1;
    }
    i
}

/// The stem of the last path segment of `reference`: what stands behind its
/// last `/` and before the first `.` that follows.
pub open spec fn segment_stem(reference: Seq<char>) -> Seq<char> {
    before_first(after_last(reference, '/'), '.')
}

/// The stem of a reference holds neither a slash nor a dot.
pub proof fn lemma_segment_stem(reference: Seq<char>)
    ensures
        forall|j: int|
            0 <= j < segment_stem(reference).len() ==> segment_stem(reference)[j] != '/'
                && segment_stem(reference)[j] != '.',
{
    let tail = after_last(reference, '/');
    lemma_after_last(reference, '/');
    lemma_before_first(tail, '.');
}

/// Computes `segment_stem`.
pub fn stem_of(reference: &str) -> (stem: String)
    ensures
        stem@ == segment_stem(reference@),
{
    let chars = chars_of(reference);
    let from = last_start(&chars, '/');
    let ghost tail = chars@.skip(from as int);
    proof {
        let chosen = choose|i: int| is_last_start(chars@, '/', i);
        lemma_last_start_unique(chars@, '/', from as int, chosen);
    }
    let mut to: usize = from;
    while to < chars.len() && chars[to] != '.'
        invariant
            from <= to <= chars.len(),
            tail == chars@.skip(from as int),
            forall|j: int| 0 <= j < to - from ==> tail[j] != '.',
        decreases chars.len() - to,
    {
        to += 1;
    }
    proof {
        let chosen = choose|i: int| is_first_break(tail, '.', i);
        lemma_first_break_unique(tail, '.', to - from, chosen);
    }
    string_of(&chars, from, to)
}

} // verus!
