//! Text as sequences of characters: whitespace, ASCII case, trimming,
//! splitting, searching and decimal numbers.

use vstd::prelude::*;
use vstd::string::*;

verus! {

/// `String::push` of the standard library: the character is appended to the
/// end of the string.
pub assume_specification[ String::push ](s: &mut String, c: char)
    ensures
        final(s)@ == old(s)@.push(c),
;

/// The characters of a string, in order.
pub fn to_chars(s: &str) -> (v: Vec<char>)
    ensures
        v@ == s@,
{
    let mut v: Vec<char> = Vec::new();
    for c in it: s.chars()
        invariant
            it.seq() == s@,
            v@ == s@.take(it.index() as int),
    {
        v.push(c);
    }
    v
}

/// The string made of the given characters.
pub fn to_string(chars: &[char]) -> (s: String)
    ensures
        s@ == chars@,
{
    let mut s = String::new();
    let mut i: usize = 0;
    while i < chars.len()
        invariant
            i <= chars.len(),
            s@ == chars@.take(i as int),
        decreases chars.len() - i,
    {
        s.push(chars[i]);
        i += 1;
    }
    s
}

/// White space as Unicode defines it.
pub open spec fn is_whitespace(c: char) -> bool {
    let u = c as u32;
    ||| 0x09 <= u <= 0x0D
    ||| u == 0x20
    ||| u == 0x85
    ||| u == 0xA0
    ||| u == 0x1680
    ||| 0x2000 <= u <= 0x200A
    ||| u == 0x2028
    ||| u == 0x2029
    ||| u == 0x202F
    ||| u == 0x205F
    ||| u == 0x3000
}

pub fn char_is_whitespace(c: char) -> (r: bool)
    ensures
        r == is_whitespace(c),
{
    let u = c as u32;
    (0x09 <= u && u <= 0x0D) || u == 0x20 || u == 0x85 || u == 0xA0 || u == 0x1680 || (0x2000 <= u
        && u <= 0x200A) || u == 0x2028 || u == 0x2029 || u == 0x202F || u == 0x205F || u == 0x3000
}

/// The lower-case form of an ASCII letter; any other character is itself.
pub open spec fn ascii_lower(c: char) -> char {
    if 'A' <= c <= 'Z' {
        ((c as u32) + 32) as char
    } else {
        c
    }
}

/// The upper-case form of an ASCII letter; any other character is itself.
pub open spec fn ascii_upper(c: char) -> char {
    if 'a' <= c <= 'z' {
        ((c as u32) - 32) as char
    } else {
        c
    }
}

pub fn char_ascii_lower(c: char) -> (r: char)
    ensures
        r == ascii_lower(c),
{
    if 'A' <= c && c <= 'Z' {
        ((c as u8) + 32) as char
    } else {
        c
    }
}

pub fn char_ascii_upper(c: char) -> (r: char)
    ensures
        r == ascii_upper(c),
{
    if 'a' <= c && c <= 'z' {
        ((c as u8) - 32) as char
    } else {
        c
    }
}

/// A copy of `s[from .. to]`.
pub fn copy_range(s: &[char], from: usize, to: usize) -> (v: Vec<char>)
    requires
        from <= to <= s.len(),
    ensures
        v@ == s@.subrange(from as int, to as int),
{
    let mut v: Vec<char> = Vec::new();
    let mut i: usize = from;
    while i < to
        invariant
            from <= i <= to <= s.len(),
            v@ == s@.subrange(from as int, i as int),
        decreases to - i,
    {
        v.push(s[i]);
        i += 1;
    }
    v
}

/// `s` with every ASCII letter in lower case.
pub open spec fn lower(s: Seq<char>) -> Seq<char> {
    Seq::new(s.len(), |i: int| ascii_lower(s[i]))
}

/// `s` with every ASCII letter in upper case.
pub open spec fn upper(s: Seq<char>) -> Seq<char> {
    Seq::new(s.len(), |i: int| ascii_upper(s[i]))
}

/// Whether `a` and `b` are the same but for the case of ASCII letters.
pub open spec fn eq_ignore_case(a: Seq<char>, b: Seq<char>) -> bool {
    lower(a) == lower(b)
}

/// `s` with every ASCII letter in lower case.
pub fn lower_chars(s: &[char]) -> (v: Vec<char>)
    ensures
        v@ == lower(s@),
{
    let mut v: Vec<char> = Vec::new();
    let mut i: usize = 0;
    while i < s.len()
        invariant
            i <= s.len(),
            v@ == lower(s@).take(i as int),
        decreases s.len() - i,
    {
        v.push(char_ascii_lower(s[i]));
        i += 1;
    }
    v
}

/// `s` with every ASCII letter in upper case.
pub fn upper_chars(s: &[char]) -> (v: Vec<char>)
    ensures
        v@ == upper(s@),
{
    let mut v: Vec<char> = Vec::new();
    let mut i: usize = 0;
    while i < s.len()
        invariant
            i <= s.len(),
            v@ == upper(s@).take(i as int),
        decreases s.len() - i,
    {
        v.push(char_ascii_upper(s[i]));
        i += 1;
    }
    v
}

/// Whether two texts hold the same characters.
pub fn chars_eq(a: &[char], b: &[char]) -> (r: bool)
    ensures
        r == (a@ == b@),
{
    if a.len() != b.len() {
        return false;
    }
    let mut i: usize = 0;
    while i < a.len()
        invariant
            i <= a.len(),
            a.len() == b.len(),
            a@.take(i as int) == b@.take(i as int),
        decreases a.len() - i,
    {
        if a[i] != b[i] {
            return false;
        }
        assert(a@.take(i + 1) =~= a@.take(i as int).push(a@[i as int]));
        assert(b@.take(i + 1) =~= b@.take(i as int).push(b@[i as int]));
        i += 1;
    }
    assert(a@ =~= a@.take(a.len() as int));
    assert(b@ =~= b@.take(b.len() as int));
    true
}

/// Whether `a` and `b` are the same but for the case of ASCII letters.
pub fn chars_eq_ignore_case(a: &[char], b: &[char]) -> (r: bool)
    ensures
        r == eq_ignore_case(a@, b@),
{
    if a.len() != b.len() {
        assert(lower(a@).len() != lower(b@).len());
        return false;
    }
    let mut i: usize = 0;
    while i < a.len()
        invariant
            i <= a.len(),
            a.len() == b.len(),
            forall|k: int| 0 <= k < i ==> ascii_lower(a@[k]) == ascii_lower(b@[k]),
        decreases a.len() - i,
    {
        if char_ascii_lower(a[i]) != char_ascii_lower(b[i]) {
            assert(lower(a@)[i as int] != lower(b@)[i as int]);
            return false;
        }
        i += 1;
    }
    assert(lower(a@) =~= lower(b@));
    true
}

/// Whether `s` starts with `prefix`.
pub open spec fn starts_with(s: Seq<char>, prefix: Seq<char>) -> bool {
    prefix.len() <= s.len() && s.subrange(0, prefix.len() as int) == prefix
}

/// Whether `s` ends with `suffix`.
pub open spec fn ends_with(s: Seq<char>, suffix: Seq<char>) -> bool {
    suffix.len() <= s.len() && s.subrange(s.len() - suffix.len(), s.len() as int) == suffix
}

/// Whether `needle` stands in `s` at index `at`.
pub open spec fn occurs_at(s: Seq<char>, needle: Seq<char>, at: int) -> bool {
    0 <= at && at + needle.len() <= s.len() && s.subrange(at, at + needle.len()) == needle
}

/// Whether `needle` stands somewhere in `s`.
pub open spec fn contains(s: Seq<char>, needle: Seq<char>) -> bool {
    exists|at: int| occurs_at(s, needle, at)
}

/// Whether `needle` stands in `s` at index `at`.
pub fn chars_occur_at(s: &[char], needle: &[char], at: usize) -> (r: bool)
    ensures
        r == occurs_at(s@, needle@, at as int),
{
    if needle.len() > s.len() || at > s.len() - needle.len() {
        return false;
    }
    let mut i: usize = 0;
    while i < needle.len()
        invariant
            i <= needle.len(),
            at + needle.len() <= s.len(),
            forall|k: int| 0 <= k < i ==> s@[at + k] == needle@[k],
        decreases needle.len() - i,
    {
        if s[at + i] != needle[i] {
            assert(s@.subrange(at as int, at + needle.len())[i as int] != needle@[i as int]);
            return false;
        }
        i += 1;
    }
    assert(s@.subrange(at as int, at + needle.len()) =~= needle@);
    true
}

/// Whether `s` starts with `prefix`.
pub fn chars_start_with(s: &[char], prefix: &[char]) -> (r: bool)
    ensures
        r == starts_with(s@, prefix@),
{
    chars_occur_at(s, prefix, 0)
}

/// Whether `s` ends with `suffix`.
pub fn chars_end_with(s: &[char], suffix: &[char]) -> (r: bool)
    ensures
        r == ends_with(s@, suffix@),
{
    if suffix.len() > s.len() {
        return false;
    }
    chars_occur_at(s, suffix, s.len() - suffix.len())
}

/// Whether `needle` stands somewhere in `s`.
pub fn chars_contain(s: &[char], needle: &[char]) -> (r: bool)
    ensures
        r == contains(s@, needle@),
{
    if needle.len() > s.len() {
        return false;
    }
    let last: usize = s.len() - needle.len();
    let mut at: usize = 0;
    loop
        invariant
            at <= last,
            last == s.len() - needle.len(),
            forall|k: int| 0 <= k < at ==> !occurs_at(s@, needle@, k),
        decreases last - at,
    {
        if chars_occur_at(s, needle, at) {
            return true;
        }
        if at == last {
            return false;
        }
        at += 1;
    }
}

/// `s` without the white space at its start.
pub open spec fn trim_start(s: Seq<char>) -> Seq<char>
    decreases s.len(),
{
    if s.len() > 0 && is_whitespace(s[0]) {
        trim_start(s.drop_first())
    } else {
        s
    }
}

/// `s` without the white space at its end.
pub open spec fn trim_end(s: Seq<char>) -> Seq<char>
    decreases s.len(),
{
    if s.len() > 0 && is_whitespace(s.last()) {
        trim_end(s.drop_last())
    } else {
        s
    }
}

/// `s` without the white space at its start and at its end.
pub open spec fn trim(s: Seq<char>) -> Seq<char> {
    trim_end(trim_start(s))
}

/// `s` without the characters `c` at its start.
pub open spec fn strip_leading(s: Seq<char>, c: char) -> Seq<char>
    decreases s.len(),
{
    if s.len() > 0 && s[0] == c {
        strip_leading(s.drop_first(), c)
    } else {
        s
    }
}

/// `s` without the white space at its start and at its end.
pub fn trim_chars(s: &[char]) -> (v: Vec<char>)
    ensures
        v@ == trim(s@),
{
    let n = s.len();
    let mut a: usize = 0;
    assert(s@.subrange(0, n as int) =~= s@);
    while a < n && char_is_whitespace(s[a])
        invariant
            a <= n,
            n == s.len(),
            trim_start(s@) == trim_start(s@.subrange(a as int, n as int)),
        decreases n - a,
    {
        assert(s@.subrange(a as int, n as int).drop_first() =~= s@.subrange(a + 1, n as int));
        a += 1;
    }
    assert(trim_start(s@) == s@.subrange(a as int, n as int));
    let mut b: usize = n;
    while b > a && char_is_whitespace(s[b - 1])
        invariant
            a <= b <= n,
            n == s.len(),
            trim(s@) == trim_end(s@.subrange(a as int, b as int)),
        decreases b,
    {
        assert(s@.subrange(a as int, b as int).drop_last() =~= s@.subrange(a as int, b - 1));
        b -= 1;
    }
    copy_range(s, a, b)
}

/// `s` without the characters `c` at its start.
pub fn strip_leading_chars(s: &[char], c: char) -> (v: Vec<char>)
    ensures
        v@ == strip_leading(s@, c),
{
    let n = s.len();
    let mut a: usize = 0;
    assert(s@.subrange(0, n as int) =~= s@);
    while a < n && s[a] == c
        invariant
            a <= n,
            n == s.len(),
            strip_leading(s@, c) == strip_leading(s@.subrange(a as int, n as int), c),
        decreases n - a,
    {
        assert(s@.subrange(a as int, n as int).drop_first() =~= s@.subrange(a + 1, n as int));
        a += 1;
    }
    copy_range(s, a, n)
}

/// The index of the first `c` in `s`; the length of `s` where there is none.
pub open spec fn index_of(s: Seq<char>, c: char) -> int
    decreases s.len(),
{
    if s.len() == 0 {
        0
    } else if s[0] == c {
        0
    } else {
        1 + index_of(s.drop_first(), c)
    }
}

/// The parts of `s` between the separators `sep`, in order. A text without a
/// separator is its own single part; two separators in a row hold an empty
/// part between them.
pub open spec fn split(s: Seq<char>, sep: char) -> Seq<Seq<char>>
    decreases s.len(),
{
    let i = index_of(s, sep);
    if 0 <= i < s.len() {
        seq![s.subrange(0, i)] + split(s.subrange(i + 1, s.len() as int), sep)
    } else {
        seq![s]
    }
}

/// `index_of` finds the first separator at or after any start.
pub proof fn lemma_index_of(s: Seq<char>, c: char, from: int, to: int)
    requires
        0 <= from <= to <= s.len(),
        forall|k: int| from <= k < to ==> s[k] != c,
        to == s.len() || s[to] == c,
    ensures
        index_of(s.subrange(from, s.len() as int), c) == to - from,
    decreases to - from,
{
    let t = s.subrange(from, s.len() as int);
    if from < to {
        assert(t[0] == s[from]);
        assert(t.drop_first() =~= s.subrange(from + 1, s.len() as int));
        lemma_index_of(s, c, from + 1, to);
    } else if to < s.len() {
        assert(t[0] == s[to]);
    }
}

/// The views of the texts in `parts`.
pub open spec fn views(parts: Seq<Vec<char>>) -> Seq<Seq<char>> {
    Seq::new(parts.len(), |i: int| parts[i]@)
}

/// The parts of `s` between the separators `sep`, in order.
pub fn split_chars(s: &[char], sep: char) -> (parts: Vec<Vec<char>>)
    ensures
        views(parts@) == split(s@, sep),
        parts.len() >= 1,
{
    let n = s.len();
    let mut parts: Vec<Vec<char>> = Vec::new();
    let mut start: usize = 0;
    let mut i: usize = 0;
    assert(s@.subrange(0, n as int) =~= s@);
    assert(views(parts@) + split(s@, sep) =~= split(s@, sep));
    while i < n
        invariant
            start <= i <= n,
            n == s.len(),
            forall|k: int| start <= k < i ==> s@[k] != sep,
            split(s@, sep) == views(parts@) + split(s@.subrange(start as int, n as int), sep),
        decreases n - i,
    {
        if s[i] == sep {
            let part = copy_range(s, start, i);
            proof {
                let t = s@.subrange(start as int, n as int);
                lemma_index_of(s@, sep, start as int, i as int);
                assert(t.subrange(0, i - start) =~= s@.subrange(start as int, i as int));
                assert(t.subrange(i - start + 1, t.len() as int) =~= s@.subrange(
                    i + 1,
                    n as int,
                ));
                assert(views(parts@.push(part)) =~= views(parts@) + seq![part@]);
            }
            parts.push(part);
            start = i + 1;
        }
        i += 1;
    }
    let part = copy_range(s, start, n);
    proof {
        lemma_index_of(s@, sep, start as int, n as int);
        assert(views(parts@.push(part)) =~= views(parts@) + seq![part@]);
    }
    parts.push(part);
    parts
}

/// Whether `c` is one of the ten ASCII digits.
pub open spec fn is_digit(c: char) -> bool {
    '0' <= c <= '9'
}

/// The value of an ASCII digit.
pub open spec fn digit_value(c: char) -> nat {
    (c as u32 - 48) as nat
}

/// Why a text is no number.
#[derive(Debug, Clone, Copy, PartialEq, Eq, Structural)]
pub enum NumberFault {
    /// The text is empty.
    Empty,
    /// The text holds something else than digits after an optional sign.
    InvalidDigit,
    /// The number is too large.
    TooLarge,
}

impl NumberFault {
    /// The fault in words.
    pub open spec fn spec_message(self) -> Seq<char> {
        match self {
            NumberFault::Empty => "cannot parse integer from empty string"@,
            NumberFault::InvalidDigit => "invalid digit found in string"@,
            NumberFault::TooLarge => "number too large to fit in target type"@,
        }
    }

    /// The fault in words.
    pub fn message(&self) -> (s: &'static str)
        ensures
            s@ == self.spec_message(),
    {
        match self {
            NumberFault::Empty => "cannot parse integer from empty string",
            NumberFault::InvalidDigit => "invalid digit found in string",
            NumberFault::TooLarge => "number too large to fit in target type",
        }
    }
}

/// The number that the digits of `s` spell, read from left to right: the
/// first character that is no digit, or the first digit with which the
/// number passes `max`, ends the reading with its fault.
pub open spec fn digits_value(s: Seq<char>, max: nat) -> Result<nat, NumberFault>
    decreases s.len(),
{
    if s.len() == 0 {
        Ok(0)
    } else {
        match digits_value(s.drop_last(), max) {
            Err(e) => Err(e),
            Ok(v) => if !is_digit(s.last()) {
                Err(NumberFault::InvalidDigit)
            } else if v * 10 + digit_value(s.last()) > max {
                Err(NumberFault::TooLarge)
            } else {
                Ok(v * 10 + digit_value(s.last()))
            },
        }
    }
}

/// The unsigned decimal number that `s` spells, no larger than `max`: digits,
/// with leading zeros allowed, after an optional `+`.
pub open spec fn parse_unsigned(s: Seq<char>, max: nat) -> Result<nat, NumberFault> {
    if s.len() == 0 {
        Err(NumberFault::Empty)
    } else if s.len() == 1 && (s[0] == '+' || s[0] == '-') {
        Err(NumberFault::InvalidDigit)
    } else if s[0] == '+' {
        digits_value(s.drop_first(), max)
    } else {
        digits_value(s, max)
    }
}

/// Reads the digits of `s[from ..]` as a number no larger than `max`.
fn read_digits(s: &[char], from: usize, max: u32) -> (r: Result<u32, NumberFault>)
    requires
        from <= s.len(),
        max <= 0xFFFF,
    ensures
        r matches Ok(v) ==> digits_value(s@.subrange(from as int, s.len() as int), max as nat)
            == Ok::<nat, NumberFault>(v as nat),
        r matches Err(e) ==> digits_value(s@.subrange(from as int, s.len() as int), max as nat)
            == Err::<nat, NumberFault>(e),
{
    let n = s.len();
    let mut v: u32 = 0;
    let mut i: usize = from;
    while i < n
        invariant
            from <= i <= n,
            n == s.len(),
            max <= 0xFFFF,
            v <= max,
            digits_value(s@.subrange(from as int, i as int), max as nat) == Ok::<nat, NumberFault>(
                v as nat,
            ),
        decreases n - i,
    {
        let c = s[i];
        proof {
            let t = s@.subrange(from as int, i + 1);
            assert(t.drop_last() =~= s@.subrange(from as int, i as int));
            assert(t.last() == c);
            lemma_digits_fault_stays(s@, from as int, i + 1, max as nat);
        }
        if !('0' <= c && c <= '9') {
            return Err(NumberFault::InvalidDigit);
        }
        let d: u32 = (c as u32) - 48;
        if v * 10 + d > max {
            return Err(NumberFault::TooLarge);
        }
        v = v * 10 + d;
        i += 1;
    }
    assert(s@.subrange(from as int, n as int) == s@.subrange(from as int, i as int));
    Ok(v)
}

/// A fault met while reading a prefix stays the fault of the whole.
pub proof fn lemma_digits_fault_stays(s: Seq<char>, from: int, mid: int, max: nat)
    requires
        0 <= from <= mid <= s.len(),
    ensures
        digits_value(s.subrange(from, mid), max) matches Err(e) ==> digits_value(
            s.subrange(from, s.len() as int),
            max,
        ) == Err::<nat, NumberFault>(e),
    decreases s.len() - mid,
{
    if mid < s.len() {
        let t = s.subrange(from, mid + 1);
        assert(t.drop_last() =~= s.subrange(from, mid));
        lemma_digits_fault_stays(s, from, mid + 1, max);
    }
}

/// Reads `s` as an unsigned decimal number no larger than `max`.
pub fn parse_unsigned_chars(s: &[char], max: u32) -> (r: Result<u32, NumberFault>)
    requires
        max <= 0xFFFF,
    ensures
        r matches Ok(v) ==> parse_unsigned(s@, max as nat) == Ok::<nat, NumberFault>(v as nat) && v
            <= max,
        r matches Err(e) ==> parse_unsigned(s@, max as nat) == Err::<nat, NumberFault>(e),
{
    if s.len() == 0 {
        return Err(NumberFault::Empty);
    }
    if s.len() == 1 && (s[0] == '+' || s[0] == '-') {
        return Err(NumberFault::InvalidDigit);
    }
    if s[0] == '+' {
        assert(s@.drop_first() =~= s@.subrange(1, s.len() as int));
        let r = read_digits(s, 1, max);
        proof {
            if r is Ok {
                lemma_digits_bound(s@.subrange(1, s.len() as int), max as nat);
            }
        }
        r
    } else {
        assert(s@ =~= s@.subrange(0, s.len() as int));
        let r = read_digits(s, 0, max);
        proof {
            if r is Ok {
                lemma_digits_bound(s@, max as nat);
            }
        }
        r
    }
}

/// A number that was read is no larger than the bound.
pub proof fn lemma_digits_bound(s: Seq<char>, max: nat)
    ensures
        digits_value(s, max) matches Ok(v) ==> v <= max,
    decreases s.len(),
{
    if s.len() > 0 {
        lemma_digits_bound(s.drop_last(), max);
    }
}

/// Reads `s` as a run of decimal digits that spells a number no larger than
/// `max`. An empty text reads as zero.
pub fn digits_chars(s: &[char], max: u32) -> (r: Result<u32, NumberFault>)
    requires
        max <= 0xFFFF,
    ensures
        r matches Ok(v) ==> digits_value(s@, max as nat) == Ok::<nat, NumberFault>(v as nat) && v
            <= max,
        r matches Err(e) ==> digits_value(s@, max as nat) == Err::<nat, NumberFault>(e),
{
    assert(s@ =~= s@.subrange(0, s.len() as int));
    let r = read_digits(s, 0, max);
    proof {
        if r is Ok {
            lemma_digits_bound(s@, max as nat);
        }
    }
    r
}

/// The character of a decimal digit.
pub open spec fn digit_char(d: nat) -> char {
    (48 + d) as char
}

/// The decimal digits of a number, without leading zeros.
pub open spec fn decimal_text(n: nat) -> Seq<char>
    decreases n,
{
    if n < 10 {
        seq![digit_char(n)]
    } else {
        decimal_text(n / 10).push(digit_char(n % 10))
    }
}

/// The decimal digits of a number, without leading zeros.
pub fn decimal_chars(n: usize) -> (v: Vec<char>)
    ensures
        v@ == decimal_text(n as nat),
    decreases n,
{
    let digit: char = ((48 + (n % 10)) as u8) as char;
    if n < 10 {
        let mut v: Vec<char> = Vec::new();
        v.push(digit);
        assert(v@ =~= decimal_text(n as nat));
        v
    } else {
        let mut v = decimal_chars(n / 10);
        v.push(digit);
        v
    }
}

/// Appends characters to a string.
pub fn append_chars(s: &mut String, tail: &[char])
    ensures
        final(s)@ == old(s)@ + tail@,
{
    let mut i: usize = 0;
    assert(s@ =~= old(s)@ + tail@.take(0));
    while i < tail.len()
        invariant
            i <= tail.len(),
            s@ == old(s)@ + tail@.take(i as int),
        decreases tail.len() - i,
    {
        s.push(tail[i]);
        assert(old(s)@ + tail@.take(i + 1) =~= (old(s)@ + tail@.take(i as int)).push(
            tail@[i as int],
        ));
        i += 1;
    }
    assert(tail@.take(tail.len() as int) =~= tail@);
}

} // verus!
