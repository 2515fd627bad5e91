//! Remembering where the floating widget and the pet were left. What is stored
//! is "left edge x, bottom edge y": the widget grows upwards when it expands, so
//! its bottom edge is what stays put.
use crate::text::{all_digits, digits_value, spec_dec, spec_dec_nat, spec_parse_int};
use vstd::prelude::*;

verus! {

pub const WIDGET_POS_KEY: &'static str = "posWidget";
pub const PET_POS_KEY: &'static str = "posPet";

pub open spec fn spec_key_for(label: Seq<char>) -> Option<Seq<char>> {
    if label == "widget"@ {
        Some(WIDGET_POS_KEY@)
    } else if label == "pet"@ {
        Some(PET_POS_KEY@)
    } else {
        None
    }
}

/// The settings key of a window whose position is remembered.
pub fn key_for(label: &str) -> (r: Option<&'static str>)
    ensures
        match spec_key_for(label@) {
            Some(k) => r matches Some(x) && x@ == k,
            None => r is None,
        },
{
    if crate::text::str_eq(label, "widget") {
        Some(WIDGET_POS_KEY)
    } else if crate::text::str_eq(label, "pet") {
        Some(PET_POS_KEY)
    } else {
        None
    }
}

/// The window a position key belongs to.
pub fn label_for_key(key: &str) -> (r: &'static str)
    ensures
        r@ == if key@ == WIDGET_POS_KEY@ { "widget"@ } else { "pet"@ },
{
    if crate::text::str_eq(key, WIDGET_POS_KEY) {
        "widget"
    } else {
        "pet"
    }
}

/// How a position is stored: `x,bottom` in decimal.
pub open spec fn spec_format_pos(x: i32, bottom: i32) -> Seq<char> {
    spec_dec(x as int) + ","@ + spec_dec(bottom as int)
}

pub fn format_pos(x: i32, bottom: i32) -> (r: String)
    ensures
        r@ == spec_format_pos(x, bottom),
{
    let a = crate::text::i64_to_string(x as i64);
    let b = crate::text::i64_to_string(bottom as i64);
    crate::text::concat3(a.as_str(), ",", b.as_str())
}

/// Position of the first comma (the length when there is none).
pub open spec fn comma_index(s: Seq<char>) -> int
    decreases s.len(),
{
    if s.len() == 0 {
        0
    } else if s[0] == ',' {
        0
    } else {
        1 + comma_index(s.drop_first())
    }
}

proof fn lemma_comma_index(s: Seq<char>, m: int)
    requires
        0 <= m <= s.len(),
        forall|j: int| 0 <= j < m ==> s[j] != ',',
        m == s.len() || s[m] == ',',
    ensures
        comma_index(s) == m,
    decreases m,
{
    if m > 0 {
        lemma_comma_index(s.drop_first(), m - 1);
    }
}

/// A stored position: the first two comma-separated parts, each a 32-bit integer.
pub open spec fn spec_parse_pos(raw: Seq<char>) -> Option<(i32, i32)> {
    let c = comma_index(raw);
    if c >= raw.len() {
        None
    } else {
        let rest = raw.skip(c + 1);
        let second = rest.take(comma_index(rest));
        match (
            spec_parse_int(raw.take(c), i32::MIN as int, i32::MAX as int),
            spec_parse_int(second, i32::MIN as int, i32::MAX as int),
        ) {
            (Some(x), Some(b)) => Some((x as i32, b as i32)),
            _ => None,
        }
    }
}

/// The part of `cs` from `start` up to the next comma, and where it ends.
fn part_until_comma(cs: &Vec<char>, start: usize) -> (r: (Vec<char>, usize))
    requires
        start <= cs.len(),
    ensures
        start + comma_index(cs@.skip(start as int)) == r.1,
        r.1 <= cs.len(),
        r.0@ == cs@.skip(start as int).take(comma_index(cs@.skip(start as int))),
{
    let mut out: Vec<char> = Vec::new();
    let mut i: usize = start;
    while i < cs.len() && cs[i] != ','
        invariant
            start <= i <= cs.len(),
            forall|j: int| start <= j < i ==> cs@[j] != ',',
            out@ == cs@.subrange(start as int, i as int),
        decreases cs.len() - i,
    {
        out.push(cs[i]);
        i += 1;
        assert(out@ =~= cs@.subrange(start as int, i as int));
    }
    proof {
        lemma_comma_index(cs@.skip(start as int), i - start);
        assert(cs@.skip(start as int).take(i - start) =~= cs@.subrange(start as int, i as int));
    }
    (out, i)
}

/// Reads a stored position (`None` when it is malformed).
pub fn parse_pos(raw: &str) -> (r: Option<(i32, i32)>)
    ensures
        r == spec_parse_pos(raw@),
{
    let cs = crate::text::chars_of(raw);
    assert(cs@.skip(0) =~= cs@);
    let (first, end) = part_until_comma(&cs, 0);
    if end >= cs.len() {
        return None;
    }
    let (second, _) = part_until_comma(&cs, end + 1);
    let x = crate::text::parse_i32(crate::text::string_of(&first).as_str());
    let b = crate::text::parse_i32(crate::text::string_of(&second).as_str());
    match (x, b) {
        (Some(x), Some(b)) => Some((x, b)),
        _ => None,
    }
}

/// The position a read of a stored setting gives: the parsed text when one is stored
/// and readable, `None` otherwise.
pub open spec fn spec_pos_of_read(read: Result<Option<String>, String>) -> Option<(i32, i32)> {
    match crate::commands::pet::spec_setting_of_read(read) {
        Some(raw) => spec_parse_pos(raw@),
        None => None,
    }
}

/// The position a read of a stored setting gives (see `spec_pos_of_read`).
pub fn pos_of_read(read: Result<Option<String>, String>) -> (r: Option<(i32, i32)>)
    ensures
        r == spec_pos_of_read(read),
{
    match crate::commands::pet::setting_of_read(read) {
        Some(raw) => parse_pos(raw.as_str()),
        None => None,
    }
}

/// A position saved and read back is the same position, x first and bottom second:
/// reading back the stored text `format_pos(x, bottom)` gives `(x, bottom)`, and a
/// missing setting or a failed read gives none.
pub proof fn lemma_saved_position_reads_back(x: i32, bottom: i32, stored: String, e: String)
    requires
        stored@ == spec_format_pos(x, bottom),
    ensures
        spec_pos_of_read(Ok(Some(stored))) == Some((x, bottom)),
        spec_pos_of_read(Ok(None)) is None,
        spec_pos_of_read(Err(e)) is None,
{
    lemma_position_roundtrip(x, bottom);
}

/// `p` is the position a read of the setting gives.
pub open spec fn is_pos_of_read(p: Option<(i32, i32)>, read: Result<Option<String>, String>) -> bool {
    p == spec_pos_of_read(read)
}

/// The stored position of a window, if a readable one is stored: the setting `key`
/// read and passed to `pos_of_read`.
pub fn read_pos(conn: &rusqlite::Connection, key: &str) -> (r: Option<(i32, i32)>)
    ensures
        exists|read: Result<Option<String>, String>| #[trigger] is_pos_of_read(r, read),
{
    let read = crate::database::settings_repo::get(conn, key);
    let ghost g = read;
    let r = pos_of_read(read);
    assert(is_pos_of_read(r, g));
    r
}

proof fn lemma_digit_char(d: int)
    requires
        0 <= d < 10,
    ensures
        (((d as u32) + ('0' as u32)) as char) as u32 - ('0' as u32) == d,
        '0' <= ((d as u32) + ('0' as u32)) as char <= '9',
{
}

/// The decimal digits of `n` are digits, at least one, and read back as `n`.
proof fn lemma_dec_nat(n: nat)
    ensures
        spec_dec_nat(n).len() > 0,
        all_digits(spec_dec_nat(n)),
        digits_value(spec_dec_nat(n)) == n,
    decreases n,
{
    if n < 10 {
        lemma_digit_char(n as int);
        let s = spec_dec_nat(n);
        assert(s.drop_last() =~= Seq::<char>::empty());
        assert(digits_value(s) == digits_value(s.drop_last()) * 10 + n);
    } else {
        lemma_dec_nat(n / 10);
        lemma_digit_char((n % 10) as int);
        let s = spec_dec_nat(n);
        assert(s.drop_last() =~= spec_dec_nat(n / 10));
        vstd::arithmetic::div_mod::lemma_fundamental_div_mod(n as int, 10);
        assert(digits_value(s) == digits_value(spec_dec_nat(n / 10)) * 10 + (n % 10));
    }
}

/// `str::parse` reads the decimal text of a 32-bit integer back as that integer.
proof fn lemma_parse_dec(v: i32)
    ensures
        spec_parse_int(spec_dec(v as int), i32::MIN as int, i32::MAX as int) == Some(v as int),
        forall|j: int| 0 <= j < spec_dec(v as int).len() ==> spec_dec(v as int)[j] != ',',
{
    if v < 0 {
        let n = (-(v as int)) as nat;
        lemma_dec_nat(n);
        let s = spec_dec(v as int);
        assert(s.drop_first() =~= spec_dec_nat(n));
        assert(s[0] == '-');
    } else {
        lemma_dec_nat(v as nat);
    }
}

/// A stored position reads back as the position that was stored.
pub proof fn lemma_position_roundtrip(x: i32, bottom: i32)
    ensures
        spec_parse_pos(spec_format_pos(x, bottom)) == Some((x, bottom)),
{
    reveal_strlit(",");
    lemma_parse_dec(x);
    lemma_parse_dec(bottom);
    let a = spec_dec(x as int);
    let b = spec_dec(bottom as int);
    let s = spec_format_pos(x, bottom);
    assert(s[a.len() as int] == ',');
    lemma_comma_index(s, a.len() as int);
    assert(s.take(a.len() as int) =~= a);
    let rest = s.skip(a.len() as int + 1);
    assert(rest =~= b);
    lemma_comma_index(rest, b.len() as int);
    assert(rest.take(b.len() as int) =~= b);
}

/// Division rounded toward zero, as Rust's `/` on integers.
pub open spec fn trunc_div(a: int, b: int) -> int {
    if a >= 0 { a / b } else { -((-a) / b) }
}

/// A window of size `w` by `h` at (`x`, `y`) lies well enough on a monitor at
/// (`mx`, `my`) of size `mw` by `mh`: at least a third of it overlaps each way.
pub open spec fn spec_on_monitor(x: int, y: int, w: int, h: int, mx: int, my: int, mw: int, mh: int) -> bool {
    &&& x + w > mx + trunc_div(w, 3)
    &&& x < mx + mw - trunc_div(w, 3)
    &&& y + h > my + trunc_div(h, 3)
    &&& y < my + mh - trunc_div(h, 3)
}

fn third(v: i32) -> (r: i64)
    ensures
        r == trunc_div(v as int, 3),
{
    if v >= 0 {
        (v / 3) as i64
    } else {
        -(((-(v as i64)) / 3))
    }
}

/// Whether a restored window stays visible on its monitor (with no monitor known,
/// the stored position is trusted).
pub fn position_on_screen(x: i32, y: i32, w: i32, h: i32, monitor: Option<(i32, i32, i32, i32)>) -> (r: bool)
    ensures
        r == match monitor {
            Some((mx, my, mw, mh)) => spec_on_monitor(
                x as int,
                y as int,
                w as int,
                h as int,
                mx as int,
                my as int,
                mw as int,
                mh as int,
            ),
            None => true,
        },
{
    match monitor {
        None => true,
        Some((mx, my, mw, mh)) => {
            let tw = third(w);
            let th = third(h);
            let (x, y, w, h) = (x as i64, y as i64, w as i64, h as i64);
            let (mx, my, mw, mh) = (mx as i64, my as i64, mw as i64, mh as i64);
            x + w > mx + tw && x < mx + mw - tw && y + h > my + th && y < my + mh - th
        },
    }
}


pub open spec fn at_least_zero(v: int) -> int {
    if v < 0 { 0 } else { v }
}

/// Where the widget starts: `margin` pixels in from the bottom-right corner of a
/// monitor of size `mw` by `mh`, a window of size `w` by `h` kept off the top and
/// left edges.
pub fn bottom_right_corner(mw: i32, mh: i32, w: i32, h: i32, margin: i32) -> (r: (i32, i32))
    requires
        i32::MIN <= mw - w - margin <= i32::MAX,
        i32::MIN <= mh - h - margin <= i32::MAX,
    ensures
        r.0 == at_least_zero(mw - w - margin),
        r.1 == at_least_zero(mh - h - margin),
{
    let x = mw as i64 - w as i64 - margin as i64;
    let y = mh as i64 - h as i64 - margin as i64;
    (if x < 0 { 0 } else { x as i32 }, if y < 0 { 0 } else { y as i32 })
}

/// Where the pet starts: left of the widget at (`wx`, `wy`) with `gap` pixels
/// between them, bottom edges aligned (the widget `wh` high, the pet `pw` by `ph`),
/// kept off the top and left edges.
pub fn beside_widget(wx: i32, wy: i32, wh: i32, pw: i32, ph: i32, gap: i32) -> (r: (i32, i32))
    requires
        i32::MIN <= wx - pw - gap <= i32::MAX,
        i32::MIN <= wy + wh - ph <= i32::MAX,
    ensures
        r.0 == at_least_zero(wx - pw - gap),
        r.1 == at_least_zero(wy + wh - ph),
{
    let x = wx as i64 - pw as i64 - gap as i64;
    let y = wy as i64 + wh as i64 - ph as i64;
    (if x < 0 { 0 } else { x as i32 }, if y < 0 { 0 } else { y as i32 })
}

} // verus!
