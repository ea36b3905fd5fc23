//! Character-level text helpers and their mathematical models.
//!
//! Text is modelled as `Seq<char>`, the view of `str` and `String`.
use vstd::prelude::*;

verus! {

/// The characters of a string slice, in order.
#[verifier::external_body]
pub(crate) fn chars_of(s: &str) -> (result: Vec<char>)
    ensures
        result@ == s@,
{
    s.chars().collect()
}

/// A string holding exactly the given characters.
#[verifier::external_body]
pub(crate) fn string_of(chars: &[char]) -> (result: String)
    ensures
        result@ == chars@,
{
    chars.iter().collect()
}

/// Unicode `White_Space`, as `char::is_whitespace` classifies it.
pub open spec fn is_whitespace(c: char) -> bool {
    ||| c == ' '
    ||| ('\u{9}' <= c && c <= '\u{d}')
    ||| c == '\u{85}'
    ||| c == '\u{a0}'
    ||| c == '\u{1680}'
    ||| ('\u{2000}' <= c && c <= '\u{200a}')
    ||| c == '\u{2028}'
    ||| c == '\u{2029}'
    ||| c == '\u{202f}'
    ||| c == '\u{205f}'
    ||| c == '\u{3000}'
}

pub fn char_is_whitespace(c: char) -> (result: bool)
    ensures
        result == is_whitespace(c),
{
    c == ' ' || ('\u{9}' <= c && c <= '\u{d}') || c == '\u{85}' || c == '\u{a0}' || c
        == '\u{1680}' || ('\u{2000}' <= c && c <= '\u{200a}') || c == '\u{2028}' || c
        == '\u{2029}' || c == '\u{202f}' || c == '\u{205f}' || c == '\u{3000}'
}

pub open spec fn is_ascii_digit(c: char) -> bool {
    '0' <= c && c <= '9'
}

pub open spec fn is_ascii_upper(c: char) -> bool {
    'A' <= c && c <= 'Z'
}

pub open spec fn is_ascii_lower(c: char) -> bool {
    'a' <= c && c <= 'z'
}

pub open spec fn is_ascii_alphanumeric(c: char) -> bool {
    is_ascii_digit(c) || is_ascii_upper(c) || is_ascii_lower(c)
}

pub open spec fn is_ascii_hexdigit(c: char) -> bool {
    is_ascii_digit(c) || ('a' <= c && c <= 'f') || ('A' <= c && c <= 'F')
}

pub fn char_is_ascii_digit(c: char) -> (result: bool)
    ensures
        result == is_ascii_digit(c),
{
    '0' <= c && c <= '9'
}

pub fn char_is_ascii_alphanumeric(c: char) -> (result: bool)
    ensures
        result == is_ascii_alphanumeric(c),
{
    ('0' <= c && c <= '9') || ('A' <= c && c <= 'Z') || ('a' <= c && c <= 'z')
}

pub fn char_is_ascii_hexdigit(c: char) -> (result: bool)
    ensures
        result == is_ascii_hexdigit(c),
{
    ('0' <= c && c <= '9') || ('a' <= c && c <= 'f') || ('A' <= c && c <= 'F')
}

/// `char::to_ascii_lowercase`.
pub open spec fn ascii_lower(c: char) -> char {
    if is_ascii_upper(c) {
        ((c as u32) + 32) as char
    } else {
        c
    }
}

/// `char::to_ascii_uppercase`.
pub open spec fn ascii_upper(c: char) -> char {
    if is_ascii_lower(c) {
        ((c as u32) - 32) as char
    } else {
        c
    }
}

pub fn char_to_ascii_lower(c: char) -> (result: char)
    ensures
        result == ascii_lower(c),
{
    if 'A' <= c && c <= 'Z' {
        let code: u32 = c as u32 + 32;
        proof {
            assert(0x41 <= code <= 0x7a);
        }
        char_from_ascii(code)
    } else {
        c
    }
}

pub fn char_to_ascii_upper(c: char) -> (result: char)
    ensures
        result == ascii_upper(c),
{
    if 'a' <= c && c <= 'z' {
        let code: u32 = c as u32 - 32;
        char_from_ascii(code)
    } else {
        c
    }
}

/// The character with a given code below 128.
pub fn char_from_ascii(code: u32) -> (result: char)
    requires
        code < 128,
    ensures
        result == code as char,
        result as u32 == code,
{
    let byte: u8 = code as u8;
    byte as char
}

pub open spec fn lower_seq(s: Seq<char>) -> Seq<char> {
    s.map_values(|c: char| ascii_lower(c))
}

pub open spec fn upper_seq(s: Seq<char>) -> Seq<char> {
    s.map_values(|c: char| ascii_upper(c))
}

/// `str::to_ascii_lowercase` over characters.
pub fn to_ascii_lower(s: &[char]) -> (result: Vec<char>)
    ensures
        result@ == lower_seq(s@),
{
    let mut result: Vec<char> = Vec::new();
    let mut i: usize = 0;
    while i < s.len()
        invariant
            i <= s.len(),
            result@ == lower_seq(s@.subrange(0, i as int)),
        decreases s.len() - i,
    {
        let c = char_to_ascii_lower(s[i]);
        result.push(c);
        i = i + 1;
        assert(lower_seq(s@.subrange(0, i as int)) =~= lower_seq(s@.subrange(0, i - 1)).push(
            ascii_lower(s@[i - 1]),
        ));
    }
    assert(s@.subrange(0, s@.len() as int) =~= s@);
    result
}

/// `str::to_ascii_uppercase` over characters.
pub fn to_ascii_upper(s: &[char]) -> (result: Vec<char>)
    ensures
        result@ == upper_seq(s@),
{
    let mut result: Vec<char> = Vec::new();
    let mut i: usize = 0;
    while i < s.len()
        invariant
            i <= s.len(),
            result@ == upper_seq(s@.subrange(0, i as int)),
        decreases s.len() - i,
    {
        let c = char_to_ascii_upper(s[i]);
        result.push(c);
        i = i + 1;
        assert(upper_seq(s@.subrange(0, i as int)) =~= upper_seq(s@.subrange(0, i - 1)).push(
            ascii_upper(s@[i - 1]),
        ));
    }
    assert(s@.subrange(0, s@.len() as int) =~= s@);
    result
}

/// Leading Unicode whitespace removed (`str::trim_start`).
pub open spec fn trim_start(s: Seq<char>) -> Seq<char>
    decreases s.len(),
{
    if s.len() > 0 && is_whitespace(s[0]) {
        trim_start(s.drop_first())
    } else {
        s
    }
}

/// Trailing Unicode whitespace removed (`str::trim_end`).
pub open spec fn trim_end(s: Seq<char>) -> Seq<char>
    decreases s.len(),
{
    if s.len() > 0 && is_whitespace(s.last()) {
        trim_end(s.drop_last())
    } else {
        s
    }
}

/// Whitespace removed at both ends (`str::trim`).
pub open spec fn trim(s: Seq<char>) -> Seq<char> {
    trim_end(trim_start(s))
}

/// Index of the first character of `trim_start(s)`.
pub fn trim_start_index(s: &[char]) -> (result: usize)
    ensures
        result <= s@.len(),
        trim_start(s@) == s@.subrange(result as int, s@.len() as int),
{
    let n = s.len();
    let mut i: usize = 0;
    assert(s@.subrange(0, n as int) =~= s@);
    while i < n && char_is_whitespace(s[i])
        invariant
            i <= n,
            n == s@.len(),
            trim_start(s@.subrange(i as int, n as int)) == trim_start(s@),
        decreases n - i,
    {
        assert(s@.subrange(i as int, n as int).drop_first() =~= s@.subrange(i + 1, n as int));
        i = i + 1;
    }
    proof {
        result_is_trimmed(s@, i as int);
    }
    i
}

proof fn result_is_trimmed(s: Seq<char>, i: int)
    requires
        0 <= i <= s.len(),
        i == s.len() || !is_whitespace(s[i]),
    ensures
        trim_start(s.subrange(i, s.len() as int)) == s.subrange(i, s.len() as int),
{
}

/// One past the last character of `trim_end(s)`.
pub fn trim_end_index(s: &[char]) -> (result: usize)
    ensures
        result <= s@.len(),
        trim_end(s@) == s@.subrange(0, result as int),
{
    let n = s.len();
    let mut j: usize = n;
    assert(s@.subrange(0, n as int) =~= s@);
    while j > 0 && char_is_whitespace(s[j - 1])
        invariant
            j <= n,
            n == s@.len(),
            trim_end(s@.subrange(0, j as int)) == trim_end(s@),
        decreases j,
    {
        assert(s@.subrange(0, j as int).drop_last() =~= s@.subrange(0, j - 1));
        j = j - 1;
    }
    j
}

/// Copy of `s[from..to]`.
pub fn slice_range(s: &[char], from: usize, to: usize) -> (result: Vec<char>)
    requires
        from <= to <= s@.len(),
    ensures
        result@ == s@.subrange(from as int, to as int),
{
    let mut result: Vec<char> = Vec::new();
    let mut i: usize = from;
    while i < to
        invariant
            from <= i <= to,
            to <= s@.len(),
            result@ == s@.subrange(from as int, i as int),
        decreases to - i,
    {
        result.push(s[i]);
        i = i + 1;
        assert(result@ =~= s@.subrange(from as int, i as int));
    }
    result
}

/// `str::trim` over characters.
pub fn trim_chars(s: &[char]) -> (result: Vec<char>)
    ensures
        result@ == trim(s@),
{
    let start = trim_start_index(s);
    let rest = slice_range(s, start, s.len());
    let end = trim_end_index(rest.as_slice());
    slice_range(rest.as_slice(), 0, end)
}

/// `str::trim` on a string slice.
pub fn trim_str(s: &str) -> (result: Vec<char>)
    ensures
        result@ == trim(s@),
{
    let chars = chars_of(s);
    trim_chars(chars.as_slice())
}

/// Trimming is idempotent.
pub proof fn lemma_trim_start_idempotent(s: Seq<char>)
    ensures
        trim_start(trim_start(s)) == trim_start(s),
        trim_start(s).len() == 0 || !is_whitespace(trim_start(s)[0]),
    decreases s.len(),
{
    if s.len() > 0 && is_whitespace(s[0]) {
        lemma_trim_start_idempotent(s.drop_first());
    }
}

/// Appends the characters of `s` to `v`.
pub fn push_str(v: &mut Vec<char>, s: &str)
    ensures
        final(v)@ == old(v)@ + s@,
{
    let chars = chars_of(s);
    push_chars(v, chars.as_slice());
}

/// Appends `w` to `v`.
pub fn push_chars(v: &mut Vec<char>, w: &[char])
    ensures
        final(v)@ == old(v)@ + w@,
{
    let ghost start = v@;
    let mut i: usize = 0;
    while i < w.len()
        invariant
            i <= w.len(),
            v@ == start + w@.subrange(0, i as int),
        decreases w.len() - i,
    {
        v.push(w[i]);
        i = i + 1;
        assert(v@ =~= start + w@.subrange(0, i as int));
    }
    assert(w@.subrange(0, w@.len() as int) =~= w@);
}

/// Whether `p` is a prefix of `s`.
pub open spec fn starts_with(s: Seq<char>, p: Seq<char>) -> bool {
    p.len() <= s.len() && s.subrange(0, p.len() as int) == p
}

/// Whether `p` is a suffix of `s`.
pub open spec fn ends_with(s: Seq<char>, p: Seq<char>) -> bool {
    p.len() <= s.len() && s.subrange(s.len() - p.len(), s.len() as int) == p
}

/// Whether `p` occurs in `s` at position `i`.
pub open spec fn occurs_at(s: Seq<char>, p: Seq<char>, i: int) -> bool {
    0 <= i && i + p.len() <= s.len() && s.subrange(i, i + p.len()) == p
}

/// Whether `p` occurs anywhere in `s` (`str::contains`).
pub open spec fn contains_seq(s: Seq<char>, p: Seq<char>) -> bool {
    exists|i: int| occurs_at(s, p, i)
}

/// Whether `s[i..]` starts with `p`.
pub fn occurs_at_exec(s: &[char], p: &[char], i: usize) -> (result: bool)
    ensures
        result == occurs_at(s@, p@, i as int),
{
    if i > s.len() || p.len() > s.len() - i {
        return false;
    }
    let mut k: usize = 0;
    while k < p.len()
        invariant
            k <= p.len(),
            i + p.len() <= s.len(),
            forall|j: int| 0 <= j < k ==> s@[i + j] == p@[j],
        decreases p.len() - k,
    {
        if s[i + k] != p[k] {
            assert(s@.subrange(i as int, i + p@.len())[k as int] != p@[k as int]);
            return false;
        }
        k = k + 1;
    }
    assert(s@.subrange(i as int, i + p@.len()) =~= p@);
    true
}

/// Whether `p` is a prefix of `s`.
pub fn starts_with_exec(s: &[char], p: &[char]) -> (result: bool)
    ensures
        result == starts_with(s@, p@),
{
    occurs_at_exec(s, p, 0)
}

/// Whether `p` is a suffix of `s`.
pub fn ends_with_exec(s: &[char], p: &[char]) -> (result: bool)
    ensures
        result == ends_with(s@, p@),
{
    if p.len() > s.len() {
        return false;
    }
    occurs_at_exec(s, p, s.len() - p.len())
}

/// Whether `s` starts with the string literal or slice `p`.
pub fn starts_with_str(s: &[char], p: &str) -> (result: bool)
    ensures
        result == starts_with(s@, p@),
{
    let pc = chars_of(p);
    starts_with_exec(s, pc.as_slice())
}

/// Whether `s` ends with `p`.
pub fn ends_with_str(s: &[char], p: &str) -> (result: bool)
    ensures
        result == ends_with(s@, p@),
{
    let pc = chars_of(p);
    ends_with_exec(s, pc.as_slice())
}

/// Index of the first occurrence of `p` in `s` (`str::find`).
pub open spec fn first_occurrence(s: Seq<char>, p: Seq<char>, i: int) -> bool {
    occurs_at(s, p, i) && forall|j: int| 0 <= j < i ==> !occurs_at(s, p, j)
}

/// The first position at which `p` occurs in `s`, if any.
pub fn find_seq(s: &[char], p: &[char]) -> (result: Option<usize>)
    ensures
        match result {
            Some(i) => first_occurrence(s@, p@, i as int),
            None => !contains_seq(s@, p@),
        },
{
    let mut i: usize = 0;
    while i < s.len()
        invariant
            i <= s.len(),
            forall|j: int| 0 <= j < i ==> !occurs_at(s@, p@, j),
        decreases s.len() - i,
    {
        if occurs_at_exec(s, p, i) {
            return Some(i);
        }
        i = i + 1;
    }
    if occurs_at_exec(s, p, i) {
        return Some(i);
    }
    assert forall|j: int| !occurs_at(s@, p@, j) by {
        if 0 <= j <= i {
        }
    }
    None
}

/// Whether `p` occurs in `s` (`str::contains`).
pub fn contains_str(s: &[char], p: &str) -> (result: bool)
    ensures
        result == contains_seq(s@, p@),
{
    let pc = chars_of(p);
    match find_seq(s, pc.as_slice()) {
        Some(i) => true,
        None => false,
    }
}

/// First index of character `c` in `s`.
pub open spec fn first_index_of(s: Seq<char>, c: char, i: int) -> bool {
    0 <= i < s.len() && s[i] == c && forall|j: int| 0 <= j < i ==> s[j] != c
}

pub fn find_char(s: &[char], c: char) -> (result: Option<usize>)
    ensures
        match result {
            Some(i) => first_index_of(s@, c, i as int),
            None => !s@.contains(c),
        },
{
    let mut i: usize = 0;
    while i < s.len()
        invariant
            i <= s.len(),
            forall|j: int| 0 <= j < i ==> s@[j] != c,
        decreases s.len() - i,
    {
        if s[i] == c {
            return Some(i);
        }
        i = i + 1;
    }
    None
}

/// Whether `c` occurs in `s`.
pub fn contains_char(s: &[char], c: char) -> (result: bool)
    ensures
        result == s@.contains(c),
{
    match find_char(s, c) {
        Some(i) => true,
        None => false,
    }
}

/// Character sequences compared for equality.
pub fn chars_equal(a: &[char], b: &[char]) -> (result: bool)
    ensures
        result == (a@ == b@),
{
    if a.len() != b.len() {
        return false;
    }
    let r = occurs_at_exec(a, b, 0);
    proof {
        if r {
            assert(a@ =~= a@.subrange(0, b@.len() as int));
        } else {
            assert(a@.subrange(0, b@.len() as int) =~= a@);
        }
    }
    r
}

/// Whether the characters equal the literal `s`.
pub fn equals_str(a: &[char], s: &str) -> (result: bool)
    ensures
        result == (a@ == s@),
{
    let b = chars_of(s);
    chars_equal(a, b.as_slice())
}

/// Decimal digit character for `d < 10`.
pub open spec fn digit_char(d: nat) -> char {
    ((d + 48) as u32) as char
}

/// The decimal representation of `n`, without sign or leading zeros.
pub open spec fn decimal(n: nat) -> Seq<char>
    decreases n,
{
    if n < 10 {
        seq![digit_char(n)]
    } else {
        decimal(n / 10).push(digit_char(n % 10))
    }
}

/// `decimal(n)` padded with zeros on the left to at least `width` characters.
pub open spec fn zero_pad(s: Seq<char>, width: nat) -> Seq<char> {
    if s.len() >= width {
        s
    } else {
        Seq::new((width - s.len()) as nat, |i: int| '0') + s
    }
}

pub fn digit(d: u64) -> (result: char)
    requires
        d < 10,
    ensures
        result == digit_char(d as nat),
{
    char_from_ascii((d + 48) as u32)
}

/// Appends `decimal(n)`.
pub fn push_decimal(v: &mut Vec<char>, n: u64)
    ensures
        final(v)@ == old(v)@ + decimal(n as nat),
    decreases n,
{
    if n >= 10 {
        push_decimal(v, n / 10);
    }
    let d = digit(n % 10);
    v.push(d);
    proof {
        if n >= 10 {
            assert(final(v)@ =~= old(v)@ + decimal(n as nat));
        } else {
            assert(final(v)@ =~= old(v)@ + decimal(n as nat));
        }
    }
}

/// The decimal representation of `n`.
pub fn decimal_chars(n: u64) -> (result: Vec<char>)
    ensures
        result@ == decimal(n as nat),
{
    let mut v: Vec<char> = Vec::new();
    push_decimal(&mut v, n);
    assert(v@ =~= decimal(n as nat));
    v
}

/// Appends `n` padded with zeros to at least `width` digits (`{:0width$}`).
pub fn push_padded(v: &mut Vec<char>, n: u64, width: usize)
    ensures
        final(v)@ == old(v)@ + zero_pad(decimal(n as nat), width as nat),
{
    let digits = decimal_chars(n);
    let ghost start = v@;
    if digits.len() < width {
        let pad = width - digits.len();
        let mut i: usize = 0;
        while i < pad
            invariant
                i <= pad,
                v@ == start + Seq::new(i as nat, |k: int| '0'),
            decreases pad - i,
        {
            v.push('0');
            i = i + 1;
            assert(v@ =~= start + Seq::new(i as nat, |k: int| '0'));
        }
    }
    push_chars(v, digits.as_slice());
    assert(v@ =~= start + zero_pad(decimal(n as nat), width as nat));
}

/// Sum of the values of a digit sequence read in base 10.
pub open spec fn digits_value(s: Seq<char>) -> nat
    decreases s.len(),
{
    if s.len() == 0 {
        0
    } else {
        digits_value(s.drop_last()) * 10 + ((s.last() as u32) - 48) as nat
    }
}

pub open spec fn all_digits(s: Seq<char>) -> bool {
    forall|i: int| 0 <= i < s.len() ==> is_ascii_digit(#[trigger] s[i])
}

/// The value of a non-empty digit sequence, or `None` when it does not fit
/// below `limit`.
pub fn parse_digits(s: &[char], limit: u64) -> (result: Option<u64>)
    requires
        all_digits(s@),
    ensures
        match result {
            Some(v) => v == digits_value(s@) && v <= limit,
            None => digits_value(s@) > limit,
        },
{
    let mut value: u64 = 0;
    let mut i: usize = 0;
    while i < s.len()
        invariant
            i <= s.len(),
            all_digits(s@),
            value == digits_value(s@.subrange(0, i as int)),
            value <= limit,
        decreases s.len() - i,
    {
        let d: u64 = (s[i] as u32 - 48) as u64;
        assert(s@.subrange(0, i + 1).drop_last() =~= s@.subrange(0, i as int));
        assert(is_ascii_digit(s@[i as int]));
        if d > limit || value > (limit - d) / 10 {
            proof {
                lemma_digits_prefix_monotone(s@, i as int + 1);
            }
            return None;
        }
        value = value * 10 + d;
        i = i + 1;
    }
    assert(s@.subrange(0, s@.len() as int) =~= s@);
    Some(value)
}

/// A longer prefix of digits never has a smaller value.
pub proof fn lemma_digits_prefix_monotone(s: Seq<char>, k: int)
    requires
        0 <= k <= s.len(),
        all_digits(s),
    ensures
        digits_value(s.subrange(0, k)) <= digits_value(s),
    decreases s.len() - k,
{
    if k < s.len() {
        lemma_digits_prefix_monotone(s, k + 1);
        assert(s.subrange(0, k + 1).drop_last() =~= s.subrange(0, k));
        assert(is_ascii_digit(s[k]));
    } else {
        assert(s.subrange(0, k) =~= s);
    }
}

/// Splits `s` at every occurrence of `sep` (`str::split` with a character).
pub open spec fn split_char(s: Seq<char>, sep: char) -> Seq<Seq<char>>
    decreases s.len(),
{
    if s.len() == 0 {
        seq![seq![]]
    } else {
        let rest = split_char(s.drop_last(), sep);
        if s.last() == sep {
            rest.push(seq![])
        } else {
            rest.update(rest.len() - 1, rest.last().push(s.last()))
        }
    }
}

pub proof fn lemma_split_nonempty(s: Seq<char>, sep: char)
    ensures
        split_char(s, sep).len() >= 1,
    decreases s.len(),
{
    if s.len() > 0 {
        lemma_split_nonempty(s.drop_last(), sep);
    }
}

/// `str::split(sep)` collected into owned pieces.
pub fn split_chars(s: &[char], sep: char) -> (result: Vec<Vec<char>>)
    ensures
        result@.len() == split_char(s@, sep).len(),
        forall|i: int| 0 <= i < result@.len() ==> #[trigger] result@[i]@ == split_char(s@, sep)[i],
{
    let mut pieces: Vec<Vec<char>> = Vec::new();
    let mut current: Vec<char> = Vec::new();
    let mut i: usize = 0;
    while i < s.len()
        invariant
            i <= s.len(),
            pieces@.len() + 1 == split_char(s@.subrange(0, i as int), sep).len(),
            forall|k: int|
                0 <= k < pieces@.len() ==> #[trigger] pieces@[k]@ == split_char(
                    s@.subrange(0, i as int),
                    sep,
                )[k],
            current@ == split_char(s@.subrange(0, i as int), sep).last(),
        decreases s.len() - i,
    {
        let ghost prefix = s@.subrange(0, i as int);
        proof {
            lemma_split_nonempty(prefix, sep);
        }
        assert(s@.subrange(0, i + 1).drop_last() =~= prefix);
        if s[i] == sep {
            let mut done: Vec<char> = Vec::new();
            std::mem::swap(&mut done, &mut current);
            pieces.push(done);
        } else {
            current.push(s[i]);
        }
        i = i + 1;
    }
    assert(s@.subrange(0, s@.len() as int) =~= s@);
    proof {
        lemma_split_nonempty(s@, sep);
    }
    pieces.push(current);
    pieces
}

/// A `String` holding the literal.
pub fn string_from(s: &str) -> (result: String)
    ensures
        result@ == s@,
{
    let chars = chars_of(s);
    string_of(chars.as_slice())
}

/// A `Vec<char>` joined from pieces with a separator between them.
pub open spec fn join(pieces: Seq<Seq<char>>, sep: Seq<char>) -> Seq<char>
    decreases pieces.len(),
{
    if pieces.len() == 0 {
        seq![]
    } else if pieces.len() == 1 {
        pieces[0]
    } else {
        join(pieces.drop_last(), sep) + sep + pieces.last()
    }
}

/// The pieces joined with `sep` between them.
pub fn join_chars(pieces: &Vec<Vec<char>>, sep: &str) -> (result: Vec<char>)
    ensures
        result@ == join(pieces@.map_values(|p: Vec<char>| p@), sep@),
{
    let ghost all = pieces@.map_values(|p: Vec<char>| p@);
    let mut v: Vec<char> = Vec::new();
    let mut i: usize = 0;
    while i < pieces.len()
        invariant
            i <= pieces@.len(),
            all == pieces@.map_values(|p: Vec<char>| p@),
            v@ == join(all.subrange(0, i as int), sep@),
        decreases pieces.len() - i,
    {
        if i > 0 {
            push_str(&mut v, sep);
        }
        push_chars(&mut v, pieces[i].as_slice());
        assert(all.subrange(0, i + 1).drop_last() =~= all.subrange(0, i as int));
        assert(all.subrange(0, i + 1).last() == pieces@[i as int]@);
        if i == 0 {
            assert(v@ =~= join(all.subrange(0, 1), sep@));
        } else {
            assert(v@ =~= join(all.subrange(0, i + 1), sep@));
        }
        i = i + 1;
    }
    assert(all.subrange(0, all.len() as int) =~= all);
    v
}


/// `s` with every trailing `c` removed (`str::trim_end_matches` with a character).
pub open spec fn strip_trailing(s: Seq<char>, c: char) -> Seq<char>
    decreases s.len(),
{
    if s.len() > 0 && s.last() == c {
        strip_trailing(s.drop_last(), c)
    } else {
        s
    }
}

pub fn strip_trailing_char(s: &[char], c: char) -> (result: Vec<char>)
    ensures
        result@ == strip_trailing(s@, c),
{
    let mut end: usize = s.len();
    assert(s@.subrange(0, end as int) =~= s@);
    while end > 0 && s[end - 1] == c
        invariant
            end <= s.len(),
            strip_trailing(s@.subrange(0, end as int), c) == strip_trailing(s@, c),
        decreases end,
    {
        assert(s@.subrange(0, end as int).drop_last() =~= s@.subrange(0, end - 1));
        end = end - 1;
    }
    slice_range(s, 0, end)
}

/// The digits of an unsigned number's text: a leading `+` is allowed.
pub open spec fn unsigned_digits(s: Seq<char>) -> Seq<char> {
    if s.len() > 0 && s[0] == '+' {
        s.drop_first()
    } else {
        s
    }
}

/// What `str::parse::<u32>` accepts, and the value it gives.
pub open spec fn u32_text_value(s: Seq<char>) -> Option<nat> {
    let d = unsigned_digits(s);
    if d.len() > 0 && all_digits(d) && digits_value(d) <= u32::MAX {
        Some(digits_value(d))
    } else {
        None
    }
}

pub fn parse_u32(s: &[char]) -> (result: Option<u32>)
    ensures
        match result {
            Some(v) => u32_text_value(s@) == Some(v as nat),
            None => u32_text_value(s@) is None,
        },
{
    let start: usize = if s.len() > 0 && s[0] == '+' { 1 } else { 0 };
    let digits = slice_range(s, start, s.len());
    assert(digits@ =~= unsigned_digits(s@));
    if digits.len() == 0 {
        return None;
    }
    let mut i: usize = 0;
    while i < digits.len()
        invariant
            i <= digits.len(),
            digits@ == unsigned_digits(s@),
            forall|k: int| 0 <= k < i ==> is_ascii_digit(#[trigger] digits@[k]),
        decreases digits.len() - i,
    {
        if !char_is_ascii_digit(digits[i]) {
            assert(!is_ascii_digit(digits@[i as int]));
            return None;
        }
        i = i + 1;
    }
    match parse_digits(digits.as_slice(), 4294967295u64) {
        Some(v) => Some(v as u32),
        None => None,
    }
}


/// What `str::parse::<u64>` accepts, and the value it gives.
pub open spec fn u64_text_value(s: Seq<char>) -> Option<nat> {
    let d = unsigned_digits(s);
    if d.len() > 0 && all_digits(d) && digits_value(d) <= u64::MAX {
        Some(digits_value(d))
    } else {
        None
    }
}

pub fn parse_u64(s: &[char]) -> (result: Option<u64>)
    ensures
        match result {
            Some(v) => u64_text_value(s@) == Some(v as nat),
            None => u64_text_value(s@) is None,
        },
{
    let start: usize = if s.len() > 0 && s[0] == '+' { 1 } else { 0 };
    let digits = slice_range(s, start, s.len());
    assert(digits@ =~= unsigned_digits(s@));
    if digits.len() == 0 {
        return None;
    }
    let mut i: usize = 0;
    while i < digits.len()
        invariant
            i <= digits.len(),
            digits@ == unsigned_digits(s@),
            forall|k: int| 0 <= k < i ==> is_ascii_digit(#[trigger] digits@[k]),
        decreases digits.len() - i,
    {
        if !char_is_ascii_digit(digits[i]) {
            assert(!is_ascii_digit(digits@[i as int]));
            return None;
        }
        i = i + 1;
    }
    parse_digits(digits.as_slice(), u64::MAX)
}

/// Where `p` first occurs in `s`, if it occurs at all.
pub open spec fn first_position(s: Seq<char>, p: Seq<char>) -> Option<int> {
    if exists|i: int| first_occurrence(s, p, i) {
        Some(choose|i: int| first_occurrence(s, p, i))
    } else {
        None
    }
}

/// A pattern has at most one first occurrence.
pub proof fn lemma_first_occurrence_unique(s: Seq<char>, p: Seq<char>, i: int, j: int)
    requires
        first_occurrence(s, p, i),
        first_occurrence(s, p, j),
    ensures
        i == j,
{
    if i < j {
        assert(!occurs_at(s, p, i));
    }
    if j < i {
        assert(!occurs_at(s, p, j));
    }
}

/// `str::split_once`: the text before and after the first occurrence of `p`.
pub open spec fn split_once(s: Seq<char>, p: Seq<char>) -> Option<(Seq<char>, Seq<char>)> {
    match first_position(s, p) {
        Some(i) => Some((s.subrange(0, i), s.subrange(i + p.len(), s.len() as int))),
        None => None,
    }
}

pub fn split_once_str(s: &[char], p: &str) -> (result: Option<(Vec<char>, Vec<char>)>)
    ensures
        match result {
            Some((a, b)) => split_once(s@, p@) == Some((a@, b@)),
            None => split_once(s@, p@) is None,
        },
{
    let pc = chars_of(p);
    match find_seq(s, pc.as_slice()) {
        Some(i) => {
            proof {
                let k = choose|k: int| first_occurrence(s@, p@, k);
                lemma_first_occurrence_unique(s@, p@, k, i as int);
            }
            assert(occurs_at(s@, pc@, i as int));
            let n = s.len();
            let before = slice_range(s, 0, i);
            let after = slice_range(s, i + pc.len(), n);
            Some((before, after))
        },
        None => {
            assert forall|k: int| !first_occurrence(s@, p@, k) by {
                if first_occurrence(s@, p@, k) {
                    assert(occurs_at(s@, p@, k));
                }
            }
            None
        },
    }
}

/// The decimal text of a number is a non-empty run of digits whose value is
/// the number.
pub proof fn lemma_decimal_digits(n: nat)
    ensures
        decimal(n).len() >= 1,
        all_digits(decimal(n)),
        digits_value(decimal(n)) == n,
    decreases n,
{
    let d = digit_char(n % 10);
    assert((d as u32) == n % 10 + 48);
    assert(digits_value(Seq::<char>::empty()) == 0);
    if n < 10 {
        assert(decimal(n) =~= seq![d]);
        assert(decimal(n).drop_last() =~= Seq::<char>::empty());
        assert(decimal(n).last() == d);
        assert(digits_value(decimal(n)) == digits_value(decimal(n).drop_last()) * 10 + ((d as u32) - 48) as nat);
    } else {
        lemma_decimal_digits(n / 10);
        assert(decimal(n).drop_last() =~= decimal(n / 10));
        assert(decimal(n).last() == d);
        assert(digits_value(decimal(n)) == digits_value(decimal(n / 10)) * 10 + ((d as u32) - 48) as nat);
        assert((n / 10) * 10 + n % 10 == n);
    }
}

/// Digits carry no surrounding whitespace.
pub proof fn lemma_trim_digits(s: Seq<char>)
    requires
        all_digits(s),
    ensures
        trim(s) == s,
{
    if s.len() > 0 {
        assert(is_ascii_digit(s[0]));
        assert(is_ascii_digit(s.last()));
    }
}

/// Text free of `sep` splits into itself alone.
pub proof fn lemma_split_without_separator(s: Seq<char>, sep: char)
    requires
        !s.contains(sep),
    ensures
        split_char(s, sep) =~= seq![s],
    decreases s.len(),
{
    if s.len() > 0 {
        assert(!s.drop_last().contains(sep)) by {
            if s.drop_last().contains(sep) {
                let i = choose|i: int| 0 <= i < s.drop_last().len() && s.drop_last()[i] == sep;
                assert(s[i] == sep);
            }
        }
        lemma_split_without_separator(s.drop_last(), sep);
        assert(s.last() != sep) by {
            assert(s[s.len() - 1] == s.last());
        }
        let rest = split_char(s.drop_last(), sep);
        assert(rest =~= seq![s.drop_last()]);
        assert(s.drop_last().push(s.last()) =~= s);
        assert(split_char(s, sep) == rest.update(0, rest.last().push(s.last())));
    } else {
        assert(s =~= Seq::<char>::empty());
    }
}

/// The first piece of `a`, `sep`, `b` is `a` when `a` holds no `sep`.
pub proof fn lemma_split_first_piece(a: Seq<char>, sep: char, b: Seq<char>)
    requires
        !a.contains(sep),
    ensures
        split_char(a.push(sep) + b, sep).len() >= 2,
        split_char(a.push(sep) + b, sep)[0] == a,
    decreases b.len(),
{
    if b.len() == 0 {
        assert(a.push(sep) + b =~= a.push(sep));
        assert(a.push(sep).drop_last() =~= a);
        lemma_split_without_separator(a, sep);
    } else {
        lemma_split_first_piece(a, sep, b.drop_last());
        assert((a.push(sep) + b).drop_last() =~= a.push(sep) + b.drop_last());
    }
}

/// The decimal text of a signed integer, with `-` before a negative one.
pub open spec fn signed_decimal(n: int) -> Seq<char> {
    if n < 0 {
        seq!['-'] + decimal((-n) as nat)
    } else {
        decimal(n as nat)
    }
}

/// Appends `signed_decimal(n)`.
pub fn push_i64(v: &mut Vec<char>, n: i64)
    ensures
        final(v)@ == old(v)@ + signed_decimal(n as int),
{
    if n < 0 {
        v.push('-');
        let magnitude: u64 = if n == i64::MIN { 9223372036854775808u64 } else { (-n) as u64 };
        push_decimal(v, magnitude);
        assert(final(v)@ =~= old(v)@ + signed_decimal(n as int));
    } else {
        push_decimal(v, n as u64);
    }
}


/// Whether a string has no characters.
pub fn is_empty_text(s: &str) -> (result: bool)
    ensures
        result == (s@.len() == 0),
{
    chars_of(s).len() == 0
}


/// What `str::parse::<i64>` accepts, and the value it gives.
pub open spec fn i64_text_value(s: Seq<char>) -> Option<int> {
    if s.len() > 0 && s[0] == '-' {
        let d = s.drop_first();
        if d.len() > 0 && all_digits(d) && digits_value(d) <= 9223372036854775808 {
            Some(-(digits_value(d) as int))
        } else {
            None
        }
    } else {
        let d = unsigned_digits(s);
        if d.len() > 0 && all_digits(d) && digits_value(d) <= 9223372036854775807 {
            Some(digits_value(d) as int)
        } else {
            None
        }
    }
}

fn digits_only(s: &[char]) -> (result: bool)
    ensures
        result == all_digits(s@),
{
    let mut i: usize = 0;
    while i < s.len()
        invariant
            i <= s.len(),
            forall|k: int| 0 <= k < i ==> is_ascii_digit(#[trigger] s@[k]),
        decreases s.len() - i,
    {
        if !char_is_ascii_digit(s[i]) {
            assert(!is_ascii_digit(s@[i as int]));
            return false;
        }
        i = i + 1;
    }
    true
}

pub fn parse_i64(s: &[char]) -> (result: Option<i64>)
    ensures
        match result {
            Some(v) => i64_text_value(s@) == Some(v as int),
            None => i64_text_value(s@) is None,
        },
{
    let negative = s.len() > 0 && s[0] == '-';
    let start: usize = if s.len() > 0 && (s[0] == '-' || s[0] == '+') { 1 } else { 0 };
    let digits = slice_range(s, start, s.len());
    proof {
        if negative {
            assert(digits@ =~= s@.drop_first());
        } else {
            assert(digits@ =~= unsigned_digits(s@));
        }
    }
    if digits.len() == 0 || !digits_only(digits.as_slice()) {
        return None;
    }
    if negative {
        match parse_digits(digits.as_slice(), 9223372036854775808u64) {
            Some(v) => {
                if v == 9223372036854775808u64 {
                    Some(i64::MIN)
                } else {
                    Some(-(v as i64))
                }
            },
            None => None,
        }
    } else {
        match parse_digits(digits.as_slice(), 9223372036854775807u64) {
            Some(v) => Some(v as i64),
            None => None,
        }
    }
}

} // verus!
