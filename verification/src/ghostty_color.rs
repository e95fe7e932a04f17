//! Ghostty color values: `#rgb`/`#rrggbb` (and the same without `#`),
//! `palette = N=COLOR` entries, and the color scheme that a config and a
//! theme build up.
//!
//! Numbers are read the way `u8::from_str_radix` reads them: an optional
//! leading `+`, then at least one digit of the radix, with a value of at
//! most 255. A color's hex channels are cut out of the value by *byte*
//! offsets, so a value whose cuts would split a multi-byte character is
//! outside what [`parse_color`] accepts (see [`color_outcome`]).
use vstd::prelude::*;
use crate::text::{chars_of, char_at, trim_range, trimmed, TrimClass, find_char_in, first_index, lemma_first_index_found};

verus! {

/// A 24-bit color.
#[derive(Debug, Clone, Copy, PartialEq, Eq, Structural)]
pub struct Rgb {
    pub r: u8,
    pub g: u8,
    pub b: u8,
}

impl Rgb {
    /// The color with these channels.
    pub fn new(r: u8, g: u8, b: u8) -> (c: Rgb)
        ensures
            c == (Rgb { r, g, b }),
    {
        Rgb { r, g, b }
    }
}

// ---------------------------------------------------------------------------
// Numbers.

/// The value of `c` as a digit of `radix` (`0-9`, then `a-z`/`A-Z` for
/// 10 to 35), if it is one.
pub open spec fn digit_value(c: char, radix: nat) -> Option<nat> {
    let u = c as u32;
    let d: int = if '0' <= c <= '9' {
        u - 48
    } else if 'a' <= c <= 'z' {
        u - 97 + 10
    } else if 'A' <= c <= 'Z' {
        u - 65 + 10
    } else {
        36
    };
    if d < radix {
        Some(d as nat)
    } else {
        None
    }
}

/// Whether every character of `d` is a digit of `radix`.
pub open spec fn all_digits(d: Seq<char>, radix: nat) -> bool {
    forall|i: int| 0 <= i < d.len() ==> digit_value(#[trigger] d[i], radix) is Some
}

/// The value of the digits `d` in `radix`, most significant first.
pub open spec fn digits_value(d: Seq<char>, radix: nat) -> nat
    decreases d.len(),
{
    if d.len() == 0 {
        0
    } else {
        digits_value(d.drop_last(), radix) * radix + match digit_value(d.last(), radix) {
            Some(x) => x,
            None => 0,
        }
    }
}

/// The digits of a number: without one leading `+`.
pub open spec fn radix_digits(s: Seq<char>) -> Seq<char> {
    if s.len() > 0 && s[0] == '+' {
        s.drop_first()
    } else {
        s
    }
}

/// A `u8` written in `radix`: an optional `+`, then at least one digit, with
/// a value of at most 255.
pub open spec fn radix_u8(s: Seq<char>, radix: nat) -> Option<u8> {
    let d = radix_digits(s);
    if d.len() > 0 && all_digits(d, radix) && digits_value(d, radix) <= 255 {
        Some(digits_value(d, radix) as u8)
    } else {
        None
    }
}

proof fn lemma_digits_value_grows(d: Seq<char>, radix: nat, i: int, j: int)
    requires
        radix >= 1,
        0 <= i <= j <= d.len(),
    ensures
        digits_value(d.take(i), radix) <= digits_value(d.take(j), radix),
    decreases j - i,
{
    if i < j {
        lemma_digits_value_grows(d, radix, i, j - 1);
        let t = d.take(j);
        assert(t.drop_last() =~= d.take(j - 1));
        let v = digits_value(d.take(j - 1), radix);
        assert(v * radix >= v) by (nonlinear_arith)
            requires
                radix >= 1,
                v >= 0,
        ;
    }
}

fn digit_of(c: char, radix: u32) -> (r: Option<u32>)
    requires
        2 <= radix <= 16,
    ensures
        match r {
            Some(x) => digit_value(c, radix as nat) == Some(x as nat),
            None => digit_value(c, radix as nat) is None,
        },
{
    let u = c as u32;
    let d: u32 = if '0' <= c && c <= '9' {
        u - 48
    } else if 'a' <= c && c <= 'z' {
        u - 97 + 10
    } else if 'A' <= c && c <= 'Z' {
        u - 65 + 10
    } else {
        36
    };
    if d < radix {
        Some(d)
    } else {
        None
    }
}

/// `v[from..to]` read as a `u8` in `radix`.
pub fn parse_radix_u8(v: &Vec<char>, from: usize, to: usize, radix: u32) -> (r: Option<u8>)
    requires
        from <= to <= v@.len(),
        2 <= radix <= 16,
    ensures
        r == radix_u8(v@.subrange(from as int, to as int), radix as nat),
{
    let ghost s = v@.subrange(from as int, to as int);
    let start = if from < to && v[from] == '+' {
        from + 1
    } else {
        from
    };
    let ghost d = v@.subrange(start as int, to as int);
    assert(d =~= radix_digits(s));
    if start == to {
        assert(d.len() == 0);
        return None;
    }
    let mut acc: u32 = 0;
    let mut i: usize = start;
    assert(d.take(0) =~= Seq::<char>::empty());
    while i < to
        invariant
            start <= i <= to,
            to <= v@.len(),
            2 <= radix <= 16,
            d == v@.subrange(start as int, to as int),
            d == radix_digits(v@.subrange(from as int, to as int)),
            acc as nat == digits_value(d.take(i - start), radix as nat),
            acc <= 255,
            forall|j: int| 0 <= j < i - start ==> digit_value(#[trigger] d[j], radix as nat) is Some,
        decreases to - i,
    {
        let c = char_at(v, i);
        match digit_of(c, radix) {
            None => {
                assert(d[i - start] == c);
                assert(digit_value(d[i - start], radix as nat) is None);
                assert(!all_digits(d, radix as nat));
                return None;
            },
            Some(x) => {
                let ghost k = i - start;
                proof {
                    let t = d.take(k + 1);
                    assert(t.drop_last() =~= d.take(k));
                    assert(t.last() == d[k]);
                    assert(d[k] == c);
                }
                assert(acc * radix <= 255 * 16) by (nonlinear_arith)
                    requires
                        acc <= 255,
                        radix <= 16,
                ;
                let next: u32 = acc * radix + x;
                if next > 255 {
                    proof {
                        lemma_digits_value_grows(d, radix as nat, k + 1, d.len() as int);
                        assert(d.take(d.len() as int) =~= d);
                    }
                    return None;
                }
                acc = next;
                i += 1;
            },
        }
    }
    assert(d.take(to - start) =~= d);
    Some(acc as u8)
}

// ---------------------------------------------------------------------------
// Byte offsets.

/// The number of bytes of `c` in UTF-8.
pub open spec fn utf8_width(c: char) -> nat {
    let u = c as u32;
    if u < 0x80 {
        1
    } else if u < 0x800 {
        2
    } else if u < 0x10000 {
        3
    } else {
        4
    }
}

/// The number of bytes of `s` in UTF-8.
pub open spec fn byte_len(s: Seq<char>) -> nat
    decreases s.len(),
{
    if s.len() == 0 {
        0
    } else {
        byte_len(s.drop_last()) + utf8_width(s.last())
    }
}

/// The position, at or after `i`, of the character that starts at byte
/// offset `b` of `s` (or the end of `s`, when `b` is its byte length).
pub open spec fn boundary_from(s: Seq<char>, i: int, b: nat) -> Option<int>
    decreases s.len() - i,
{
    if i < 0 || i > s.len() || byte_len(s.take(i)) > b {
        None
    } else if byte_len(s.take(i)) == b {
        Some(i)
    } else if i == s.len() {
        None
    } else {
        boundary_from(s, i + 1, b)
    }
}

/// The position of the character that starts at byte offset `b` of `s`:
/// `None` when `b` falls inside a character or past the end.
pub open spec fn boundary(s: Seq<char>, b: nat) -> Option<int> {
    boundary_from(s, 0, b)
}

fn width_of(c: char) -> (w: usize)
    ensures
        w as nat == utf8_width(c),
{
    let u = c as u32;
    if u < 0x80 {
        1
    } else if u < 0x800 {
        2
    } else if u < 0x10000 {
        3
    } else {
        4
    }
}

proof fn lemma_byte_len_step(s: Seq<char>, i: int)
    requires
        0 <= i < s.len(),
    ensures
        byte_len(s.take(i + 1)) == byte_len(s.take(i)) + utf8_width(s[i]),
{
    let t = s.take(i + 1);
    assert(t.drop_last() =~= s.take(i));
}

proof fn lemma_byte_len_grows(s: Seq<char>, i: int, j: int)
    requires
        0 <= i <= j <= s.len(),
    ensures
        byte_len(s.take(i)) + (j - i) <= byte_len(s.take(j)),
    decreases j - i,
{
    if i < j {
        lemma_byte_len_grows(s, i, j - 1);
        lemma_byte_len_step(s, j - 1);
    }
}

/// The position in `v` of the character that starts at byte offset `b` of
/// `v[from..to]`.
fn boundary_in(v: &Vec<char>, from: usize, to: usize, b: usize) -> (r: Option<usize>)
    requires
        from <= to <= v@.len(),
        b <= 8,
    ensures
        match boundary(v@.subrange(from as int, to as int), b as nat) {
            Some(k) => r == Some((from + k) as usize),
            None => r is None,
        },
{
    let ghost s = v@.subrange(from as int, to as int);
    let mut i: usize = from;
    let mut acc: usize = 0;
    assert(s.take(0) =~= Seq::<char>::empty());
    while i < to && acc < b
        invariant
            from <= i <= to,
            to <= v@.len(),
            b <= 8,
            s == v@.subrange(from as int, to as int),
            acc as nat == byte_len(s.take(i - from)),
            acc <= b + 4,
            boundary(s, b as nat) == boundary_from(s, i - from, b as nat),
        decreases to - i,
    {
        proof {
            lemma_byte_len_step(s, i - from);
            assert(s[i - from] == v@[i as int]);
        }
        acc = acc + width_of(v[i]);
        i += 1;
    }
    if acc == b {
        assert(boundary_from(s, i - from, b as nat) == Some(i - from));
        Some(i)
    } else {
        proof {
            if acc < b {
                assert(i == to);
                assert(s.take(i - from) =~= s);
            }
            assert(boundary_from(s, i - from, b as nat) is None);
        }
        None
    }
}

/// The byte length of `v[from..to]`, or 7 when it is longer than 6.
fn byte_len_upto_six(v: &Vec<char>, from: usize, to: usize) -> (n: usize)
    requires
        from <= to <= v@.len(),
    ensures
        n <= 6 ==> n as nat == byte_len(v@.subrange(from as int, to as int)),
        n > 6 ==> n == 7 && byte_len(v@.subrange(from as int, to as int)) > 6,
{
    let ghost s = v@.subrange(from as int, to as int);
    let mut i: usize = from;
    let mut acc: usize = 0;
    assert(s.take(0) =~= Seq::<char>::empty());
    while i < to
        invariant
            from <= i <= to,
            to <= v@.len(),
            s == v@.subrange(from as int, to as int),
            acc as nat == byte_len(s.take(i - from)),
            acc <= 6,
        decreases to - i,
    {
        proof {
            lemma_byte_len_step(s, i - from);
            assert(s[i - from] == v@[i as int]);
        }
        let next = acc + width_of(v[i]);
        if next > 6 {
            proof {
                lemma_byte_len_grows(s, i - from + 1, s.len() as int);
                assert(s.take(s.len() as int) =~= s);
            }
            return 7;
        }
        acc = next;
        i += 1;
    }
    assert(s.take(s.len() as int) =~= s);
    acc
}

// ---------------------------------------------------------------------------
// Color values.

/// One hex channel cut out of a color value: the cut splits a character
/// (`Cut`), or what it cuts out is no number (`Bad`), or it is `Val`.
#[derive(Debug, Clone, Copy, PartialEq, Eq, Structural)]
pub enum HexCut {
    Cut,
    Bad,
    Val(u8),
}

/// The hex number between byte offsets `lo` and `hi` of `h`.
pub open spec fn hex_cut(h: Seq<char>, lo: nat, hi: nat) -> HexCut {
    match (boundary(h, lo), boundary(h, hi)) {
        (Some(i), Some(j)) => if i <= j {
            match radix_u8(h.subrange(i, j), 16) {
                Some(x) => HexCut::Val(x),
                None => HexCut::Bad,
            }
        } else {
            HexCut::Cut
        },
        _ => HexCut::Cut,
    }
}

/// The characters of a color value that hold its hex digits: the value
/// trimmed of spaces and tabs, without one leading `#`.
pub open spec fn color_hex(value: Seq<char>) -> Seq<char> {
    let input = trimmed(value, TrimClass::SpaceTab);
    if input.len() > 0 && input[0] == '#' {
        input.drop_first()
    } else {
        input
    }
}

/// Three channels read in turn, each one only when the ones before it were
/// numbers, and scaled by `scale`: `None` when a cut splits a character.
pub open spec fn three_channels(a: HexCut, b: HexCut, c: HexCut, scale: nat) -> Option<Option<Rgb>> {
    match a {
        HexCut::Cut => None,
        HexCut::Bad => Some(None),
        HexCut::Val(r) => match b {
            HexCut::Cut => None,
            HexCut::Bad => Some(None),
            HexCut::Val(g) => match c {
                HexCut::Cut => None,
                HexCut::Bad => Some(None),
                HexCut::Val(bl) => Some(
                    Some(Rgb { r: (r * scale) as u8, g: (g * scale) as u8, b: (bl * scale) as u8 }),
                ),
            },
        },
    }
}

/// What a color value gives: `Some(Some(c))` for a color, `Some(None)` for
/// a value in no supported form, and `None` when reading it would cut a
/// multi-byte character apart. Three bytes of hex are one digit per channel
/// scaled by 17 (`F` is `FF`); six bytes are two digits per channel.
pub open spec fn color_outcome(value: Seq<char>) -> Option<Option<Rgb>> {
    hex_outcome(color_hex(value))
}

/// Whether `value` can be read as a color at all (no cut splits a
/// character).
pub open spec fn color_readable(value: Seq<char>) -> bool {
    color_outcome(value) is Some
}

/// The color `value` gives, if any.
pub open spec fn color_of(value: Seq<char>) -> Option<Rgb> {
    match color_outcome(value) {
        Some(c) => c,
        None => None,
    }
}

fn cut_hex(v: &Vec<char>, from: usize, to: usize, lo: usize, hi: usize) -> (r: HexCut)
    requires
        from <= to <= v@.len(),
        lo <= hi <= 6,
    ensures
        r == hex_cut(v@.subrange(from as int, to as int), lo as nat, hi as nat),
{
    let i = boundary_in(v, from, to, lo);
    let j = boundary_in(v, from, to, hi);
    proof {
        let s = v@.subrange(from as int, to as int);
        lemma_boundary_is(s, 0, lo as nat);
        lemma_boundary_is(s, 0, hi as nat);
    }
    match (i, j) {
        (Some(i), Some(j)) => {
            if i <= j {
                proof {
                    let s = v@.subrange(from as int, to as int);
                    assert(s.subrange(i - from, j - from) =~= v@.subrange(i as int, j as int));
                }
                match parse_radix_u8(v, i, j, 16) {
                    Some(x) => HexCut::Val(x),
                    None => HexCut::Bad,
                }
            } else {
                HexCut::Cut
            }
        },
        _ => HexCut::Cut,
    }
}

proof fn lemma_single_digit(h: Seq<char>, lo: nat, x: u8)
    requires
        lo < 3,
        byte_len(h) == 3,
        hex_cut(h, lo, lo + 1) == HexCut::Val(x),
    ensures
        x <= 15,
{
    let i = boundary(h, lo).unwrap();
    let j = boundary(h, lo + 1).unwrap();
    lemma_boundary_is(h, 0, lo);
    lemma_boundary_is(h, 0, lo + 1);
    lemma_byte_len_grows(h, i, j);
    if j - i == 1 {
        let s = h.subrange(i, j);
        if s[0] == '+' {
            assert(s.drop_first().len() == 0);
        } else {
            assert(s.drop_last().len() == 0);
            assert(digits_value(s.drop_last(), 16) == 0);
        }
    }
}

proof fn lemma_boundary_is(s: Seq<char>, i: int, b: nat)
    requires
        0 <= i <= s.len(),
    ensures
        boundary_from(s, i, b) matches Some(k) ==> i <= k <= s.len() && byte_len(s.take(k)) == b,
    decreases s.len() - i,
{
    if byte_len(s.take(i)) < b && i < s.len() {
        lemma_boundary_is(s, i + 1, b);
    }
}

/// What the hex characters `h` of a color value give (see
/// [`color_outcome`]).
pub open spec fn hex_outcome(h: Seq<char>) -> Option<Option<Rgb>> {
    let n = byte_len(h);
    if n == 3 {
        three_channels(hex_cut(h, 0, 1), hex_cut(h, 1, 2), hex_cut(h, 2, 3), 17)
    } else if n == 6 {
        three_channels(hex_cut(h, 0, 2), hex_cut(h, 2, 4), hex_cut(h, 4, 6), 1)
    } else {
        Some(None)
    }
}

fn read_channels(v: &Vec<char>, a: usize, b: usize, w: usize) -> (r: Option<Option<Rgb>>)
    requires
        a <= b <= v@.len(),
        w == 1 || w == 2,
        byte_len(v@.subrange(a as int, b as int)) == 3 * w,
    ensures
        r == three_channels(
            hex_cut(v@.subrange(a as int, b as int), 0, w as nat),
            hex_cut(v@.subrange(a as int, b as int), w as nat, 2 * w as nat),
            hex_cut(v@.subrange(a as int, b as int), 2 * w as nat, 3 * w as nat),
            if w == 1 { 17 } else { 1 },
        ),
{
    let ghost h = v@.subrange(a as int, b as int);
    let r = match cut_hex(v, a, b, 0, w) {
        HexCut::Val(x) => x,
        HexCut::Bad => {
            return Some(None);
        },
        HexCut::Cut => {
            return None;
        },
    };
    let g = match cut_hex(v, a, b, w, 2 * w) {
        HexCut::Val(x) => x,
        HexCut::Bad => {
            return Some(None);
        },
        HexCut::Cut => {
            return None;
        },
    };
    let bl = match cut_hex(v, a, b, 2 * w, 3 * w) {
        HexCut::Val(x) => x,
        HexCut::Bad => {
            return Some(None);
        },
        HexCut::Cut => {
            return None;
        },
    };
    if w == 1 {
        proof {
            lemma_single_digit(h, 0, r);
            lemma_single_digit(h, 1, g);
            lemma_single_digit(h, 2, bl);
        }
        Some(Some(Rgb::new(r * 17, g * 17, bl * 17)))
    } else {
        Some(Some(Rgb::new(r, g, bl)))
    }
}

/// What a color value gives, including whether it can be read at all (see
/// [`color_outcome`]).
pub fn color_value_outcome(value: &str) -> (r: Option<Option<Rgb>>)
    ensures
        r == color_outcome(value@),
{
    let v = chars_of(value);
    let (a0, b) = trim_range(&v, 0, v.len(), TrimClass::SpaceTab);
    assert(v@.subrange(0, v@.len() as int) =~= v@);
    let a = if a0 < b && v[a0] == '#' {
        a0 + 1
    } else {
        a0
    };
    assert(color_hex(value@) =~= v@.subrange(a as int, b as int));
    let n = byte_len_upto_six(&v, a, b);
    if n == 3 {
        read_channels(&v, a, b, 1)
    } else if n == 6 {
        read_channels(&v, a, b, 2)
    } else {
        Some(None)
    }
}

/// Reads a color value: `#rgb`, `#rrggbb`, or either without `#`,
/// surrounded by any spaces and tabs.
pub fn parse_color(value: &str) -> (r: Option<Rgb>)
    requires
        color_readable(value@),
    ensures
        r == color_of(value@),
{
    match color_value_outcome(value) {
        Some(c) => c,
        None => None,
    }
}

// ---------------------------------------------------------------------------
// Palette entries.

/// A palette index: decimal, or hex/octal/binary after a lowercase
/// `0x`/`0o`/`0b`.
pub open spec fn palette_index_of(s: Seq<char>) -> Option<u8> {
    if s.len() >= 2 && s[0] == '0' && s[1] == 'x' {
        radix_u8(s.skip(2), 16)
    } else if s.len() >= 2 && s[0] == '0' && s[1] == 'o' {
        radix_u8(s.skip(2), 8)
    } else if s.len() >= 2 && s[0] == '0' && s[1] == 'b' {
        radix_u8(s.skip(2), 2)
    } else {
        radix_u8(s, 10)
    }
}

fn palette_index_in(v: &Vec<char>, from: usize, to: usize) -> (r: Option<u8>)
    requires
        from <= to <= v@.len(),
    ensures
        r == palette_index_of(v@.subrange(from as int, to as int)),
{
    let ghost s = v@.subrange(from as int, to as int);
    if to - from >= 2 && v[from] == '0' {
        proof {
            assert(s.skip(2) =~= v@.subrange(from + 2, to as int));
        }
        if v[from + 1] == 'x' {
            return parse_radix_u8(v, from + 2, to, 16);
        } else if v[from + 1] == 'o' {
            return parse_radix_u8(v, from + 2, to, 8);
        } else if v[from + 1] == 'b' {
            return parse_radix_u8(v, from + 2, to, 2);
        }
    }
    parse_radix_u8(v, from, to, 10)
}

/// Reads a palette index: a decimal number, or one of the lowercase
/// prefixes `0x`, `0o`, `0b` followed by hex, octal or binary digits; the
/// value must fit in a `u8`.
pub fn parse_palette_index(value: &str) -> (r: Option<u8>)
    ensures
        r == palette_index_of(value@),
{
    let v = chars_of(value);
    assert(v@.subrange(0, v@.len() as int) =~= v@);
    palette_index_in(&v, 0, v.len())
}

/// The index text of a palette entry `N=COLOR`, trimmed.
pub open spec fn entry_index_text(s: Seq<char>, k: int) -> Seq<char> {
    trimmed(s.take(k), TrimClass::SpaceTab)
}

/// The color text of a palette entry `N=COLOR`, trimmed.
pub open spec fn entry_color_text(s: Seq<char>, k: int) -> Seq<char> {
    trimmed(s.skip(k + 1), TrimClass::SpaceTab)
}

/// What a palette entry `N=COLOR` gives: split at the first `=`, both sides
/// trimmed of spaces and tabs, the index read first and the color only when
/// the index is valid.
pub open spec fn palette_entry_of(s: Seq<char>) -> Option<(u8, Rgb)> {
    match first_index(s, '=') {
        None => None,
        Some(k) => match palette_index_of(entry_index_text(s, k)) {
            None => None,
            Some(i) => match color_of(entry_color_text(s, k)) {
                Some(c) => Some((i, c)),
                None => None,
            },
        },
    }
}

/// Whether reading the palette entry `s` reads its color only where the
/// color can be read.
pub open spec fn palette_entry_readable(s: Seq<char>) -> bool {
    match first_index(s, '=') {
        None => true,
        Some(k) => palette_index_of(entry_index_text(s, k)) is Some ==> color_readable(
            entry_color_text(s, k),
        ),
    }
}

/// Whether reading the palette entry `value` reads its color only where
/// the color can be read.
pub fn palette_entry_is_readable(value: &str) -> (r: bool)
    ensures
        r == palette_entry_readable(value@),
{
    let v = chars_of(value);
    let n = v.len();
    assert(v@.subrange(0, n as int) =~= v@);
    let k = match find_char_in(&v, 0, n, '=') {
        Some(k) => k,
        None => {
            return true;
        },
    };
    let (ia, ib) = trim_range(&v, 0, k, TrimClass::SpaceTab);
    assert(v@.subrange(0, k as int) =~= v@.take(k as int));
    if palette_index_in(&v, ia, ib).is_none() {
        return true;
    }
    let (ca, cb) = trim_range(&v, k + 1, n, TrimClass::SpaceTab);
    assert(v@.subrange(k + 1, n as int) =~= v@.skip(k + 1));
    let color_text = value.substring_char(ca, cb);
    color_value_outcome(color_text).is_some()
}

/// Reads a palette entry `N=COLOR`.
pub fn parse_palette_entry(value: &str) -> (r: Option<(u8, Rgb)>)
    requires
        palette_entry_readable(value@),
    ensures
        r == palette_entry_of(value@),
{
    let v = chars_of(value);
    let n = v.len();
    assert(v@.subrange(0, n as int) =~= v@);
    let k = match find_char_in(&v, 0, n, '=') {
        Some(k) => k,
        None => {
            return None;
        },
    };
    let (ia, ib) = trim_range(&v, 0, k, TrimClass::SpaceTab);
    assert(v@.subrange(0, k as int) =~= v@.take(k as int));
    let index = match palette_index_in(&v, ia, ib) {
        Some(i) => i,
        None => {
            return None;
        },
    };
    let (ca, cb) = trim_range(&v, k + 1, n, TrimClass::SpaceTab);
    assert(v@.subrange(k + 1, n as int) =~= v@.skip(k + 1));
    let color_text = value.substring_char(ca, cb);
    match parse_color(color_text) {
        Some(c) => Some((index, c)),
        None => None,
    }
}

// ---------------------------------------------------------------------------
// Color schemes.

/// The colors a configuration sets: each scalar color if set, and the
/// palette entries in the order they were set.
#[derive(Debug, Clone, PartialEq, Eq)]
pub struct ColorScheme {
    pub foreground: Option<Rgb>,
    pub background: Option<Rgb>,
    pub cursor: Option<Rgb>,
    pub palette: Vec<(u8, Rgb)>,
}

/// The plain value of a [`ColorScheme`].
pub struct ColorSchemeView {
    pub foreground: Option<Rgb>,
    pub background: Option<Rgb>,
    pub cursor: Option<Rgb>,
    pub palette: Seq<(u8, Rgb)>,
}

impl View for ColorScheme {
    type V = ColorSchemeView;

    open spec fn view(&self) -> ColorSchemeView {
        ColorSchemeView {
            foreground: self.foreground,
            background: self.background,
            cursor: self.cursor,
            palette: self.palette@,
        }
    }
}

/// No color set.
pub open spec fn no_colors() -> ColorSchemeView {
    ColorSchemeView { foreground: None, background: None, cursor: None, palette: Seq::empty() }
}

impl Default for ColorScheme {
    fn default() -> (r: Self)
        ensures
            r@ == no_colors(),
    {
        ColorScheme { foreground: None, background: None, cursor: None, palette: Vec::new() }
    }
}

/// The color that `palette` gives index `i`: its last entry for `i`.
pub open spec fn palette_at(palette: Seq<(u8, Rgb)>, i: u8) -> Option<Rgb>
    decreases palette.len(),
{
    if palette.len() == 0 {
        None
    } else if palette.last().0 == i {
        Some(palette.last().1)
    } else {
        palette_at(palette.drop_last(), i)
    }
}

impl ColorScheme {
    /// `base` with every index that the palette sets replaced by the color
    /// of its last entry for that index.
    pub fn apply_palette(&self, base: [Rgb; 256]) -> (r: [Rgb; 256])
        ensures
            forall|i: int|
                0 <= i < 256 ==> r@[i] == match palette_at(self.palette@, i as u8) {
                    Some(c) => c,
                    None => base@[i],
                },
    {
        let mut out = base;
        let n = self.palette.len();
        let mut j: usize = 0;
        while j < n
            invariant
                n == self.palette@.len(),
                j <= n,
                forall|i: int|
                    0 <= i < 256 ==> out@[i] == match palette_at(self.palette@.take(j as int), i as u8) {
                        Some(c) => c,
                        None => base@[i],
                    },
            decreases n - j,
        {
            let (idx, c) = self.palette[j];
            out[idx as usize] = c;
            proof {
                let t = self.palette@.take(j + 1);
                assert(t.drop_last() =~= self.palette@.take(j as int));
                assert(t.last() == (idx, c));
                assert forall|i: int| 0 <= i < 256 implies out@[i] == match palette_at(t, i as u8) {
                    Some(c) => c,
                    None => base@[i],
                } by {
                    if i != idx as int {
                        assert((i as u8) != idx);
                    }
                }
            }
            j += 1;
        }
        assert(self.palette@.take(n as int) =~= self.palette@);
        out
    }
}

/// A theme's colors under the user's own: each scalar is the user's when
/// set, else the theme's; the palette is the theme's entries, then the
/// user's.
pub open spec fn merged(theme: ColorSchemeView, user: ColorSchemeView) -> ColorSchemeView {
    ColorSchemeView {
        foreground: if user.foreground is Some { user.foreground } else { theme.foreground },
        background: if user.background is Some { user.background } else { theme.background },
        cursor: if user.cursor is Some { user.cursor } else { theme.cursor },
        palette: theme.palette + user.palette,
    }
}

fn or_color(a: Option<Rgb>, b: Option<Rgb>) -> (r: Option<Rgb>)
    ensures
        r == (if a is Some { a } else { b }),
{
    match a {
        Some(c) => Some(c),
        None => b,
    }
}

/// Merges a theme's colors under the user's own explicit colors.
pub fn merge_colors(theme: ColorScheme, user: ColorScheme) -> (r: ColorScheme)
    ensures
        r@ == merged(theme@, user@),
{
    let mut palette = theme.palette;
    let mut up = user.palette;
    palette.append(&mut up);
    ColorScheme {
        foreground: or_color(user.foreground, theme.foreground),
        background: or_color(user.background, theme.background),
        cursor: or_color(user.cursor, theme.cursor),
        palette,
    }
}

/// The user's own colors override the theme's: every scalar the user sets
/// wins, and every palette index the user sets takes the user's color,
/// while the indices and scalars the user leaves alone keep the theme's.
pub proof fn law_user_colors_override_theme(theme: ColorSchemeView, user: ColorSchemeView, i: u8)
    ensures
        merged(theme, user).foreground == (if user.foreground is Some { user.foreground } else { theme.foreground }),
        merged(theme, user).background == (if user.background is Some { user.background } else { theme.background }),
        merged(theme, user).cursor == (if user.cursor is Some { user.cursor } else { theme.cursor }),
        palette_at(merged(theme, user).palette, i) == match palette_at(user.palette, i) {
            Some(c) => Some(c),
            None => palette_at(theme.palette, i),
        },
{
    lemma_palette_at_append(theme.palette, user.palette, i);
}

proof fn lemma_palette_at_append(a: Seq<(u8, Rgb)>, b: Seq<(u8, Rgb)>, i: u8)
    ensures
        palette_at(a + b, i) == match palette_at(b, i) {
            Some(c) => Some(c),
            None => palette_at(a, i),
        },
    decreases b.len(),
{
    if b.len() == 0 {
        assert(a + b =~= a);
    } else {
        assert((a + b).drop_last() =~= a + b.drop_last());
        assert((a + b).last() == b.last());
        lemma_palette_at_append(a, b.drop_last(), i);
    }
}

} // verus!
