//! Text helpers: the std string operations the library relies on, each with
//! the contract that std documents for it, plus a few verified utilities.
use vstd::prelude::*;

verus! {

/// Unicode `White_Space` (the set that `char::is_whitespace` and `str::trim` use).
pub open spec fn is_unicode_ws(c: char) -> bool {
    let u = c as u32;
    ||| 0x9 <= u <= 0xD
    ||| u == 0x20
    ||| u == 0x85
    ||| u == 0xA0
    ||| u == 0x1680
    ||| 0x2000 <= u <= 0x200A
    ||| u == 0x2028
    ||| u == 0x2029
    ||| u == 0x202F
    ||| u == 0x205F
    ||| u == 0x3000
}

/// Leading whitespace removed.
pub open spec fn spec_trim_start(s: Seq<char>) -> Seq<char>
    decreases s.len(),
{
    if s.len() > 0 && is_unicode_ws(s[0]) {
        spec_trim_start(s.drop_first())
    } else {
        s
    }
}

/// Trailing whitespace removed.
pub open spec fn spec_trim_end(s: Seq<char>) -> Seq<char>
    decreases s.len(),
{
    if s.len() > 0 && is_unicode_ws(s.last()) {
        spec_trim_end(s.drop_last())
    } else {
        s
    }
}

/// `str::trim`: leading and trailing whitespace removed.
pub open spec fn spec_trim(s: Seq<char>) -> Seq<char> {
    spec_trim_end(spec_trim_start(s))
}

/// A string that is empty once trimmed.
pub open spec fn is_blank(s: Seq<char>) -> bool {
    spec_trim(s).len() == 0
}

/// Trailing occurrences of `c` removed (`str::trim_end_matches` with a char).
pub open spec fn spec_trim_end_char(s: Seq<char>, c: char) -> Seq<char>
    decreases s.len(),
{
    if s.len() > 0 && s.last() == c {
        spec_trim_end_char(s.drop_last(), c)
    } else {
        s
    }
}

pub open spec fn spec_ends_with(s: Seq<char>, suffix: Seq<char>) -> bool {
    suffix.len() <= s.len() && s.subrange(s.len() - suffix.len(), s.len() as int) == suffix
}

/// `needle` occurs in `s` as a contiguous run.
pub open spec fn spec_contains(s: Seq<char>, needle: Seq<char>) -> bool {
    exists|i: int| 0 <= i <= s.len() - needle.len() && #[trigger] s.subrange(i, i + needle.len()) == needle
}

pub open spec fn spec_contains_char(s: Seq<char>, c: char) -> bool {
    exists|i: int| 0 <= i < s.len() && s[i] == c
}

/// `char::to_ascii_lowercase`.
pub open spec fn ascii_lower(c: char) -> char {
    if 'A' <= c && c <= 'Z' {
        ((c as u32) + 32) as char
    } else {
        c
    }
}

pub open spec fn spec_ascii_lowercase(s: Seq<char>) -> Seq<char> {
    Seq::new(s.len(), |i: int| ascii_lower(s[i]))
}

/// Value of a run of ASCII decimal digits.
pub open spec fn digits_value(s: Seq<char>) -> nat
    decreases s.len(),
{
    if s.len() == 0 {
        0
    } else {
        digits_value(s.drop_last()) * 10 + ((s.last() as u32) - ('0' as u32)) as nat
    }
}

pub open spec fn all_digits(s: Seq<char>) -> bool {
    forall|i: int| 0 <= i < s.len() ==> '0' <= #[trigger] s[i] && s[i] <= '9'
}

/// What `str::parse` gives for an integer type with bounds `lo..=hi`: an optional `+`
/// (or `-` where `lo < 0`), then at least one ASCII digit, and a value in range.
pub open spec fn spec_parse_int(s: Seq<char>, lo: int, hi: int) -> Option<int> {
    let neg = s.len() > 0 && s[0] == '-' && lo < 0;
    let signed = s.len() > 0 && (s[0] == '+' || (s[0] == '-' && lo < 0));
    let body = if signed { s.drop_first() } else { s };
    if body.len() == 0 || !all_digits(body) {
        None
    } else {
        let v: int = if neg { -(digits_value(body) as int) } else { digits_value(body) as int };
        if lo <= v <= hi { Some(v) } else { None }
    }
}

/// Decimal digits of a natural number, most significant first, no leading zeros.
pub open spec fn spec_dec_nat(n: nat) -> Seq<char>
    decreases n,
{
    if n < 10 {
        seq![((n as u32) + ('0' as u32)) as char]
    } else {
        spec_dec_nat(n / 10).push((((n % 10) as u32) + ('0' as u32)) as char)
    }
}

/// `Display` of an integer: a `-` for negatives, then the decimal digits.
pub open spec fn spec_dec(v: int) -> Seq<char> {
    if v < 0 {
        seq!['-'] + spec_dec_nat((-v) as nat)
    } else {
        spec_dec_nat(v as nat)
    }
}

/// Unicode lower-casing as `str::to_lowercase` performs it.
pub uninterp spec fn spec_to_lowercase(s: Seq<char>) -> Seq<char>;

/// `str::trim` (std). Claims the result is the input without leading and trailing
/// Unicode white space.
#[verifier::external_body]
pub(crate) fn trim(s: &str) -> (r: &str)
    ensures
        r@ == spec_trim(s@),
{
    s.trim()
}

/// `str::trim_end_matches` with a single char (std). Claims every trailing copy of `c` is removed.
#[verifier::external_body]
pub(crate) fn trim_end_char(s: &str, c: char) -> (r: &str)
    ensures
        r@ == spec_trim_end_char(s@, c),
{
    s.trim_end_matches(c)
}

/// `str::ends_with` with a string pattern (std).
#[verifier::external_body]
pub(crate) fn ends_with(s: &str, suffix: &str) -> (r: bool)
    ensures
        r == spec_ends_with(s@, suffix@),
{
    s.ends_with(suffix)
}

/// `str::contains` with a string pattern (std).
#[verifier::external_body]
pub(crate) fn contains(s: &str, needle: &str) -> (r: bool)
    ensures
        r == spec_contains(s@, needle@),
{
    s.contains(needle)
}

/// `str::to_lowercase` (std). Its result is named, not spelled out: it follows the
/// Unicode case tables.
#[verifier::external_body]
pub(crate) fn to_lowercase(s: &str) -> (r: String)
    ensures
        r@ == spec_to_lowercase(s@),
{
    s.to_lowercase()
}

/// `str == str` (std).
#[verifier::external_body]
pub(crate) fn str_eq(a: &str, b: &str) -> (r: bool)
    ensures
        r == (a@ == b@),
{
    a == b
}

/// `String::push` (std): appends one char.
#[verifier::external_body]
pub(crate) fn push_char(s: &mut String, c: char)
    ensures
        final(s)@ == old(s)@.push(c),
{
    s.push(c);
}

/// `str::parse::<i64>` (std).
#[verifier::external_body]
pub(crate) fn parse_i64(s: &str) -> (r: Option<i64>)
    ensures
        r matches Some(v) ==> spec_parse_int(s@, i64::MIN as int, i64::MAX as int) == Some(v as int),
        r is None ==> spec_parse_int(s@, i64::MIN as int, i64::MAX as int) is None,
{
    s.parse::<i64>().ok()
}

/// `str::parse::<i32>` (std).
#[verifier::external_body]
pub(crate) fn parse_i32(s: &str) -> (r: Option<i32>)
    ensures
        r matches Some(v) ==> spec_parse_int(s@, i32::MIN as int, i32::MAX as int) == Some(v as int),
        r is None ==> spec_parse_int(s@, i32::MIN as int, i32::MAX as int) is None,
{
    s.parse::<i32>().ok()
}

/// `str::parse::<u64>` (std).
#[verifier::external_body]
pub(crate) fn parse_u64(s: &str) -> (r: Option<u64>)
    ensures
        r matches Some(v) ==> spec_parse_int(s@, 0, u64::MAX as int) == Some(v as int),
        r is None ==> spec_parse_int(s@, 0, u64::MAX as int) is None,
{
    s.parse::<u64>().ok()
}

/// `str::parse::<u32>` (std).
#[verifier::external_body]
pub(crate) fn parse_u32(s: &str) -> (r: Option<u32>)
    ensures
        r matches Some(v) ==> spec_parse_int(s@, 0, u32::MAX as int) == Some(v as int),
        r is None ==> spec_parse_int(s@, 0, u32::MAX as int) is None,
{
    s.parse::<u32>().ok()
}

/// `str::parse::<usize>` (std).
#[verifier::external_body]
pub(crate) fn parse_usize(s: &str) -> (r: Option<usize>)
    ensures
        r matches Some(v) ==> spec_parse_int(s@, 0, usize::MAX as int) == Some(v as int),
        r is None ==> spec_parse_int(s@, 0, usize::MAX as int) is None,
{
    s.parse::<usize>().ok()
}

/// `str::parse::<u8>` (std).
#[verifier::external_body]
pub(crate) fn parse_u8(s: &str) -> (r: Option<u8>)
    ensures
        r matches Some(v) ==> spec_parse_int(s@, 0, u8::MAX as int) == Some(v as int),
        r is None ==> spec_parse_int(s@, 0, u8::MAX as int) is None,
{
    s.parse::<u8>().ok()
}

/// `i64::to_string` (std `Display`): decimal digits with a leading `-` when negative.
#[verifier::external_body]
pub(crate) fn i64_to_string(v: i64) -> (r: String)
    ensures
        r@ == spec_dec(v as int),
{
    v.to_string()
}

/// `u64::to_string` (std `Display`): the decimal digits, without leading zeros.
#[verifier::external_body]
pub(crate) fn u64_to_string(v: u64) -> (r: String)
    ensures
        r@ == spec_dec_nat(v as nat),
{
    v.to_string()
}

/// The characters of a string, in order.
pub fn chars_of(s: &str) -> (r: Vec<char>)
    ensures
        r@ == s@,
{
    let mut out: Vec<char> = Vec::new();
    for c in it: s.chars()
        invariant
            out@ == it.seq().take(it.index() as int),
            it.seq() == s@,
    {
        out.push(c);
    }
    out
}

/// A string made of the given characters.
pub fn string_of(cs: &Vec<char>) -> (r: String)
    ensures
        r@ == cs@,
{
    let mut out = String::new();
    let mut i: usize = 0;
    while i < cs.len()
        invariant
            i <= cs.len(),
            out@ == cs@.take(i as int),
        decreases cs.len() - i,
    {
        push_char(&mut out, cs[i]);
        i += 1;
        assert(out@ == cs@.take(i as int));
    }
    assert(cs@.take(cs.len() as int) == cs@);
    out
}

/// Concatenation of two strings.
pub fn concat(a: &str, b: &str) -> (r: String)
    ensures
        r@ == a@ + b@,
{
    let mut out = String::from_str(a);
    out.append(b);
    out
}

/// Concatenation of three strings.
pub fn concat3(a: &str, b: &str, c: &str) -> (r: String)
    ensures
        r@ == a@ + b@ + c@,
{
    let mut out = String::from_str(a);
    out.append(b);
    out.append(c);
    out
}

/// The first `n` characters of a string (all of it when it is shorter).
pub fn take_chars(s: &str, n: usize) -> (r: String)
    ensures
        r@ == s@.take(if n < s@.len() { n as int } else { s@.len() as int }),
{
    let cs = chars_of(s);
    let m = if n < cs.len() { n } else { cs.len() };
    let mut out = String::new();
    let mut i: usize = 0;
    while i < m
        invariant
            m <= cs.len(),
            cs@ == s@,
            i <= m,
            out@ == cs@.take(i as int),
        decreases m - i,
    {
        push_char(&mut out, cs[i]);
        i += 1;
        assert(out@ == cs@.take(i as int));
    }
    out
}

/// Whether the string is blank (empty after trimming).
pub fn blank(s: &str) -> (r: bool)
    ensures
        r == is_blank(s@),
{
    trim(s).is_empty()
}

/// Whether the char is in the string.
pub fn has_char(s: &str, c: char) -> (r: bool)
    ensures
        r == spec_contains_char(s@, c),
{
    let cs = chars_of(s);
    let mut i: usize = 0;
    while i < cs.len()
        invariant
            cs@ == s@,
            i <= cs.len(),
            forall|k: int| 0 <= k < i ==> cs@[k] != c,
        decreases cs.len() - i,
    {
        if cs[i] == c {
            return true;
        }
        i += 1;
    }
    false
}

/// Position of the first line feed (the length when there is none).
pub open spec fn nl_index(s: Seq<char>) -> int
    decreases s.len(),
{
    if s.len() == 0 {
        0
    } else if s[0] == '\n' {
        0
    } else {
        1 + nl_index(s.drop_first())
    }
}

pub proof fn lemma_nl_index_bounds(s: Seq<char>)
    ensures
        0 <= nl_index(s) <= s.len(),
    decreases s.len(),
{
    if s.len() > 0 && s[0] != '\n' {
        lemma_nl_index_bounds(s.drop_first());
    }
}

/// A line ended by a line feed, without a carriage return before it.
pub open spec fn strip_cr(s: Seq<char>) -> Seq<char> {
    if s.len() > 0 && s.last() == '\r' { s.drop_last() } else { s }
}

/// `str::lines`: the text split at line feeds, each line without its `\n` or `\r\n`;
/// a final line ending adds no empty line.
pub open spec fn spec_lines(s: Seq<char>) -> Seq<Seq<char>>
    decreases s.len(),
{
    if s.len() == 0 {
        Seq::empty()
    } else {
        let i = nl_index(s);
        proof {
            lemma_nl_index_bounds(s);
        }
        if i >= s.len() {
            seq![s]
        } else {
            seq![strip_cr(s.take(i))] + spec_lines(s.skip(i + 1))
        }
    }
}

/// `str::lines` (std), collected: the lines of the text as described by `spec_lines`.
#[verifier::external_body]
pub(crate) fn lines(s: &str) -> (r: Vec<String>)
    ensures
        r.len() == spec_lines(s@).len(),
        forall|i: int| 0 <= i < r.len() ==> (#[trigger] r@[i])@ == spec_lines(s@)[i],
{
    s.lines().map(|l| l.to_string()).collect()
}

} // verus!
