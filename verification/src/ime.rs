//! IME composition support: laying out a preedit (composing) string on the
//! terminal grid, and converting between strings and the UTF-16 code-unit
//! ranges the platform text-input protocol speaks.
use vstd::prelude::*;
use vstd::string::*;
use std::ops::Range;
use crate::text::{chars_of, string_of, char_at};

verus! {

/// One character of a preedit string laid out at a grid column.
#[derive(Debug, Clone, Copy, PartialEq, Eq, Structural)]
pub struct PreeditCell {
    pub ch: char,
    /// 0-based column where this character's glyph starts.
    pub col: u16,
}

/// The display width `unicode_width::UnicodeWidthChar::width` gives `c`.
pub uninterp spec fn spec_char_width(c: char) -> Option<usize>;

/// `unicode_width::UnicodeWidthChar::width`. The contract names the result
/// and states what the crate's source shows outright: control characters
/// (below U+0020, and U+007F to U+009F) have no width, the other ASCII
/// characters have width 1, and no width exceeds 3.
#[verifier::external_body]
fn char_width(c: char) -> (r: Option<usize>)
    ensures
        r == spec_char_width(c),
        r is None <==> ((c as u32) < 0x20 || (0x7f <= (c as u32) && (c as u32) < 0xa0)),
        (0x20 <= (c as u32) && (c as u32) < 0x7f) ==> r == Some(1usize),
        r matches Some(w) ==> w <= 3,
{
    unicode_width::UnicodeWidthChar::width(c)
}

/// The number of grid cells `c` occupies in a preedit: its display width,
/// or 1 for a character without one.
pub open spec fn cell_width(c: char) -> nat {
    match spec_char_width(c) {
        Some(w) => w as nat,
        None => 1,
    }
}

/// The total of a sequence of cell widths.
pub open spec fn nsum(w: Seq<nat>) -> nat
    decreases w.len(),
{
    if w.len() == 0 {
        0
    } else {
        nsum(w.drop_last()) + w.last()
    }
}

/// Cell widths as natural numbers.
pub open spec fn nat_widths(w: Seq<u8>) -> Seq<nat> {
    w.map_values(|x: u8| x as nat)
}

/// The cell width of each character of `s`, in order.
pub open spec fn char_widths(s: Seq<char>) -> Seq<nat> {
    s.map_values(|c: char| cell_width(c))
}

/// The total cell width of `s`.
pub open spec fn width_sum(s: Seq<char>) -> nat {
    nsum(char_widths(s))
}

/// How many leading items of widths `w` are dropped so that the rest fits
/// in `cols` cells: the fewest.
pub open spec fn fit_start(w: Seq<nat>, cols: nat) -> int
    decreases w.len(),
{
    if nsum(w) <= cols || w.len() == 0 {
        0
    } else {
        fit_start(w.drop_first(), cols) + 1
    }
}

/// The column where a run of widths `w` starts: the cursor column (clamped
/// to the grid), shifted left just enough that the visible run does not
/// overflow the right edge.
pub open spec fn fit_start_col(w: Seq<nat>, cursor_col: u16, cols: u16) -> int {
    let cursor: int = if cursor_col < cols { cursor_col as int } else { cols - 1 };
    let visible = nsum(w.skip(fit_start(w, cols as nat)));
    if visible > cols - cursor {
        cols - visible
    } else {
        cursor
    }
}

/// Whether `cells` lays out the characters `chars` of cell widths `w` from
/// `cursor_col` on a `cols`-wide grid: none for `cols == 0` or no
/// characters; otherwise one cell per character from [`fit_start`] on, each
/// at the run's start column plus the widths of the visible characters
/// before it.
pub open spec fn laid_out(chars: Seq<char>, w: Seq<nat>, cursor_col: u16, cols: u16, cells: Seq<PreeditCell>) -> bool {
    &&& (cols == 0 || chars.len() == 0) ==> cells.len() == 0
    &&& (cols != 0 && chars.len() != 0) ==> {
        let start = fit_start(w, cols as nat);
        &&& cells.len() == chars.len() - start
        &&& forall|k: int|
            0 <= k < cells.len() ==> (#[trigger] cells[k]).ch == chars[start + k] && cells[k].col as int
                == fit_start_col(w, cursor_col, cols) + nsum(w.subrange(start, start + k))
    }
}

/// Whether `cells` is the layout of `text`, each character at its display
/// width (see [`laid_out`]).
pub open spec fn preedit_laid_out(text: Seq<char>, cursor_col: u16, cols: u16, cells: Seq<PreeditCell>) -> bool {
    laid_out(text, char_widths(text), cursor_col, cols, cells)
}

proof fn lemma_nsum_split(w: Seq<nat>, i: int)
    requires
        0 <= i <= w.len(),
    ensures
        nsum(w) == nsum(w.take(i)) + nsum(w.skip(i)),
    decreases w.len(),
{
    if i == w.len() {
        assert(w.take(i) =~= w);
        assert(w.skip(i) =~= Seq::<nat>::empty());
    } else {
        lemma_nsum_split(w.drop_last(), i);
        assert(w.drop_last().take(i) =~= w.take(i));
        assert(w.skip(i).drop_last() =~= w.drop_last().skip(i));
        assert(w.skip(i).last() == w.last());
    }
}

proof fn lemma_nsum_first(w: Seq<nat>)
    requires
        w.len() > 0,
    ensures
        nsum(w) == w[0] + nsum(w.drop_first()),
{
    lemma_nsum_split(w, 1);
    assert(w.take(1).drop_last() =~= Seq::<nat>::empty());
    assert(w.take(1).last() == w[0]);
    assert(nsum(Seq::<nat>::empty()) == 0);
    assert(nsum(w.take(1)) == nsum(w.take(1).drop_last()) + w.take(1).last());
    assert(w.skip(1) =~= w.drop_first());
}

proof fn lemma_fit_start(w: Seq<nat>, cols: nat, i: int)
    requires
        0 <= i <= w.len(),
        forall|j: int| 0 <= j < i ==> nsum(#[trigger] w.skip(j)) > cols,
        nsum(w.skip(i)) <= cols || i == w.len(),
    ensures
        fit_start(w, cols) == i,
    decreases i,
{
    if i == 0 {
        assert(w.skip(0) =~= w);
    } else {
        assert(w.skip(0) =~= w);
        assert(nsum(w.skip(0)) > cols);
        let t = w.drop_first();
        assert forall|j: int| 0 <= j < i - 1 implies nsum(#[trigger] t.skip(j)) > cols by {
            assert(t.skip(j) =~= w.skip(j + 1));
        }
        assert(t.skip(i - 1) =~= w.skip(i));
        lemma_fit_start(t, cols, i - 1);
    }
}

/// The width of each character of `v`, in order.
fn cell_widths(v: &Vec<char>) -> (r: Vec<u8>)
    ensures
        r@.len() == v@.len(),
        forall|i: int| 0 <= i < v@.len() ==> r@[i] as nat == cell_width(#[trigger] v@[i]) && r@[i] <= 3,
{
    let mut r: Vec<u8> = Vec::new();
    let n = v.len();
    let mut i: usize = 0;
    while i < n
        invariant
            n == v@.len(),
            i <= n,
            r@.len() == i,
            forall|j: int| 0 <= j < i ==> r@[j] as nat == cell_width(#[trigger] v@[j]) && r@[j] <= 3,
        decreases n - i,
    {
        let w: u8 = match char_width(v[i]) {
            Some(w) => w as u8,
            None => 1,
        };
        r.push(w);
        i += 1;
    }
    r
}

/// Lays out the characters `chars`, of cell widths `widths`, from the
/// cursor column `cursor_col` on a `cols`-wide grid: each character takes
/// its width; when the run would pass the right edge, it shifts left just
/// enough to fit, and when it is wider than the whole grid, the fewest
/// leading characters are dropped so that the rest fits. One cell is
/// returned per visible character; `cols == 0` or no characters gives none.
/// The total width must fit in a `u16`.
pub fn layout_cells(chars: &Vec<char>, widths: &Vec<u8>, cursor_col: u16, cols: u16) -> (r: Vec<PreeditCell>)
    requires
        chars@.len() == widths@.len(),
        nsum(nat_widths(widths@)) <= u16::MAX,
    ensures
        laid_out(chars@, nat_widths(widths@), cursor_col, cols, r@),
{
    let n = chars.len();
    if cols == 0 || n == 0 {
        return Vec::new();
    }
    let ghost w = nat_widths(widths@);
    let cursor = if cursor_col < cols { cursor_col } else { cols - 1 };
    // Total width.
    let mut total: u16 = 0;
    let mut i: usize = 0;
    while i < n
        invariant
            n == chars@.len(),
            n == widths@.len(),
            w == nat_widths(widths@),
            nsum(w) <= u16::MAX,
            i <= n,
            total as nat == nsum(w.take(i as int)),
        decreases n - i,
    {
        proof {
            lemma_nsum_split(w, i + 1);
            assert(w.take(i + 1).drop_last() =~= w.take(i as int));
            assert(w.take(i + 1).last() == w[i as int]);
        }
        total = total + widths[i] as u16;
        i += 1;
    }
    assert(w.take(n as int) =~= w);
    // Drop the fewest leading characters so that the rest fits.
    let mut start: usize = 0;
    let mut visible: u16 = total;
    assert(w.skip(0) =~= w);
    while visible > cols && start < n
        invariant
            n == chars@.len(),
            n == widths@.len(),
            w == nat_widths(widths@),
            start <= n,
            visible as nat == nsum(w.skip(start as int)),
            forall|j: int| 0 <= j < start ==> nsum(#[trigger] w.skip(j)) > cols,
        decreases n - start,
    {
        proof {
            lemma_nsum_first(w.skip(start as int));
            assert(w.skip(start as int).drop_first() =~= w.skip(start + 1));
        }
        visible = visible - widths[start] as u16;
        start += 1;
    }
    proof {
        lemma_fit_start(w, cols as nat, start as int);
    }
    let available = cols - cursor;
    let start_col = if visible > available {
        cols - visible
    } else {
        cursor
    };
    assert(start_col + visible <= cols);
    let mut cells: Vec<PreeditCell> = Vec::new();
    let mut col: u16 = start_col;
    let mut k: usize = start;
    while k < n
        invariant
            n == chars@.len(),
            n == widths@.len(),
            w == nat_widths(widths@),
            start <= k <= n,
            start_col + visible <= cols,
            visible as nat == nsum(w.skip(start as int)),
            col as int == start_col + nsum(w.subrange(start as int, k as int)),
            cells@.len() == k - start,
            forall|m: int|
                0 <= m < cells@.len() ==> (#[trigger] cells@[m]).ch == chars@[start + m] && cells@[m].col as int
                    == start_col + nsum(w.subrange(start as int, start + m)),
        decreases n - k,
    {
        proof {
            let tail = w.skip(start as int);
            lemma_nsum_split(tail, k - start);
            lemma_nsum_split(tail, k + 1 - start);
            assert(tail.take(k - start) =~= w.subrange(start as int, k as int));
            assert(tail.take(k + 1 - start) =~= w.subrange(start as int, k + 1));
            assert(w.subrange(start as int, k + 1).drop_last() =~= w.subrange(start as int, k as int));
            assert(w.subrange(start as int, k + 1).last() == w[k as int]);
        }
        let ch = char_at(chars, k);
        cells.push(PreeditCell { ch, col });
        col = col + widths[k] as u16;
        k += 1;
    }
    cells
}

/// Lays out `text` (an in-progress IME composition) with [`layout_cells`],
/// each character at its display width (a wide character two cells, a
/// character without a width one cell). The total width of `text` must fit
/// in a `u16`.
pub fn layout_preedit(text: &str, cursor_col: u16, cols: u16) -> (r: Vec<PreeditCell>)
    requires
        width_sum(text@) <= u16::MAX,
    ensures
        preedit_laid_out(text@, cursor_col, cols, r@),
{
    let v = chars_of(text);
    let widths = cell_widths(&v);
    assert(nat_widths(widths@) =~= char_widths(v@));
    layout_cells(&v, &widths, cursor_col, cols)
}

/// [`layout_preedit`] for any text: `None` when the total width of `text`
/// does not fit in a `u16` (laying it out would overflow), otherwise its
/// layout.
pub fn try_layout_preedit(text: &str, cursor_col: u16, cols: u16) -> (r: Option<Vec<PreeditCell>>)
    ensures
        r is None <==> width_sum(text@) > u16::MAX,
        r matches Some(cells) ==> preedit_laid_out(text@, cursor_col, cols, cells@),
{
    let v = chars_of(text);
    let widths = cell_widths(&v);
    let ghost w = nat_widths(widths@);
    assert(w =~= char_widths(v@));
    assert(width_sum(text@) == nsum(w));
    let n = widths.len();
    let mut total: u32 = 0;
    let mut i: usize = 0;
    while i < n
        invariant
            n == widths@.len(),
            w == nat_widths(widths@),
            width_sum(text@) == nsum(w),
            i <= n,
            total as nat == nsum(w.take(i as int)),
            total <= u16::MAX,
        decreases n - i,
    {
        assert(w.take(i + 1).drop_last() =~= w.take(i as int));
        assert(w.take(i + 1).last() == w[i as int]);
        assert(nsum(w.take(i + 1)) == nsum(w.take(i as int)) + w[i as int]);
        if total + widths[i] as u32 > 65535 {
            proof {
                lemma_nsum_split(w, i + 1);
            }
            assert(nsum(w) > u16::MAX);
            return None;
        }
        total = total + widths[i] as u32;
        i += 1;
    }
    assert(w.take(n as int) =~= w);
    Some(layout_cells(&v, &widths, cursor_col, cols))
}

/// The UTF-16 encoding of `s`.
pub open spec fn encode_utf16(s: Seq<char>) -> Seq<u16>
    decreases s.len(),
{
    if s.len() == 0 {
        Seq::empty()
    } else {
        let c = s.last() as u32;
        let prev = encode_utf16(s.drop_last());
        if c < 0x10000 {
            prev.push(c as u16)
        } else {
            prev.push((0xd800 + (c - 0x10000) / 1024) as u16).push((0xdc00 + (c - 0x10000) % 1024) as u16)
        }
    }
}

/// A high (leading) surrogate code unit.
pub open spec fn is_high_surrogate(u: u16) -> bool {
    0xd800 <= u <= 0xdbff
}

/// A low (trailing) surrogate code unit.
pub open spec fn is_low_surrogate(u: u16) -> bool {
    0xdc00 <= u <= 0xdfff
}

/// The character a surrogate pair encodes.
pub open spec fn pair_char(hi: u16, lo: u16) -> char {
    (0x10000 + (hi - 0xd800) * 1024 + (lo - 0xdc00)) as u32 as char
}

/// Lossy UTF-16 decoding: each well-formed pair or non-surrogate unit gives
/// its character, each unpaired surrogate gives U+FFFD.
pub open spec fn decode_utf16_lossy(u: Seq<u16>) -> Seq<char>
    decreases u.len(),
{
    if u.len() == 0 {
        Seq::empty()
    } else if is_high_surrogate(u[0]) && u.len() >= 2 && is_low_surrogate(u[1]) {
        seq![pair_char(u[0], u[1])] + decode_utf16_lossy(u.skip(2))
    } else if is_high_surrogate(u[0]) || is_low_surrogate(u[0]) {
        seq!['\u{fffd}'] + decode_utf16_lossy(u.skip(1))
    } else {
        seq![u[0] as u32 as char] + decode_utf16_lossy(u.skip(1))
    }
}

fn encode_utf16_vec(v: &Vec<char>) -> (r: Vec<u16>)
    ensures
        r@ == encode_utf16(v@),
{
    let mut r: Vec<u16> = Vec::new();
    let n = v.len();
    let mut i: usize = 0;
    while i < n
        invariant
            n == v@.len(),
            i <= n,
            r@ == encode_utf16(v@.take(i as int)),
        decreases n - i,
    {
        let c = v[i] as u32;
        proof {
            vstd::utf8::char_is_scalar(v@[i as int]);
        }
        assert(v@.take(i + 1).drop_last() =~= v@.take(i as int));
        assert(v@.take(i + 1).last() == v@[i as int]);
        if c < 0x10000 {
            r.push(c as u16);
        } else {
            assert(c <= 0x10ffff);
            r.push((0xd800 + (c - 0x10000) / 1024) as u16);
            r.push((0xdc00 + (c - 0x10000) % 1024) as u16);
        }
        i += 1;
    }
    assert(v@.take(n as int) =~= v@);
    r
}

/// The length of `s` in UTF-16 code units.
pub fn utf16_len(s: &str) -> (r: usize)
    ensures
        r == encode_utf16(s@).len(),
{
    let v = chars_of(s);
    let units = encode_utf16_vec(&v);
    units.len()
}

/// `char::from_u32`: `Some` of the character with that scalar value, `None`
/// for a surrogate or a value above U+10FFFF (as std documents it).
#[verifier::external_body]
fn char_from_u32(v: u32) -> (r: Option<char>)
    ensures
        (v <= 0x10ffff && !(0xd800 <= v && v <= 0xdfff)) ==> r == Some(v as char),
        !(v <= 0x10ffff && !(0xd800 <= v && v <= 0xdfff)) ==> r is None,
{
    char::from_u32(v)
}

fn decode_lossy(u: &Vec<u16>) -> (r: Vec<char>)
    ensures
        r@ == decode_utf16_lossy(u@),
{
    let n = u.len();
    let mut out: Vec<char> = Vec::new();
    let mut i: usize = 0;
    assert(u@.skip(0) =~= u@);
    while i < n
        invariant
            n == u@.len(),
            i <= n,
            out@ + decode_utf16_lossy(u@.skip(i as int)) == decode_utf16_lossy(u@),
        decreases n - i,
    {
        let ghost rest = u@.skip(i as int);
        let a = u[i];
        if 0xd800 <= a && a <= 0xdbff && i + 1 < n && 0xdc00 <= u[i + 1] && u[i + 1] <= 0xdfff {
            let b = u[i + 1];
            let v: u32 = 0x10000 + (a as u32 - 0xd800) * 1024 + (b as u32 - 0xdc00);
            let c = match char_from_u32(v) {
                Some(c) => c,
                None => '\u{fffd}',
            };
            assert(c == pair_char(a, b));
            out.push(c);
            assert(rest.skip(2) =~= u@.skip(i + 2));
            i += 2;
        } else if 0xd800 <= a && a <= 0xdfff {
            out.push('\u{fffd}');
            assert(rest.skip(1) =~= u@.skip(i + 1));
            i += 1;
        } else {
            let c = match char_from_u32(a as u32) {
                Some(c) => c,
                None => '\u{fffd}',
            };
            out.push(c);
            assert(rest.skip(1) =~= u@.skip(i + 1));
            i += 1;
        }
        assert(out@ + decode_utf16_lossy(u@.skip(i as int)) =~= decode_utf16_lossy(u@));
    }
    assert(u@.skip(n as int) =~= Seq::<u16>::empty());
    assert(out@ =~= decode_utf16_lossy(u@));
    out
}

/// The text of the UTF-16 code-unit range `start..end` of `s`: the range
/// clamped to the encoding's length (`end` first, then `start` to `end`),
/// decoded lossily.
pub open spec fn utf16_slice_text(s: Seq<char>, start: int, end: int) -> Seq<char> {
    let units = encode_utf16(s);
    let e: int = if end < units.len() { end } else { units.len() as int };
    let b: int = if start < e { start } else { e };
    decode_utf16_lossy(units.subrange(b, e))
}

/// The UTF-16 offset of the boundary before character `i` of `s`.
pub open spec fn utf16_offset(s: Seq<char>, i: int) -> int {
    encode_utf16(s.take(i)).len() as int
}

/// The text covered by a UTF-16 code-unit range of `s`, the range clamped to
/// `s`'s length (an empty range past the end gives the empty string); a
/// surrogate pair cut by the range comes out as U+FFFD.
pub fn utf16_slice(s: &str, range: Range<usize>) -> (r: String)
    ensures
        r@ == utf16_slice_text(s@, range.start as int, range.end as int),
{
    let v = chars_of(s);
    let units = encode_utf16_vec(&v);
    let end = if range.end < units.len() { range.end } else { units.len() };
    let start = if range.start < end { range.start } else { end };
    let mut piece: Vec<u16> = Vec::new();
    let mut i: usize = start;
    while i < end
        invariant
            start <= i <= end,
            end <= units@.len(),
            piece@ == units@.subrange(start as int, i as int),
        decreases end - i,
    {
        piece.push(units[i]);
        i += 1;
        assert(piece@ =~= units@.subrange(start as int, i as int));
    }
    let out = decode_lossy(&piece);
    string_of(&out)
}

/// Decoding the UTF-16 encoding of a string gives the string back.
pub proof fn law_utf16_round_trip(s: Seq<char>)
    ensures
        decode_utf16_lossy(encode_utf16(s)) == s,
    decreases s.len(),
{
    lemma_encode_front(s);
}

/// Slicing at character boundaries loses nothing: the range between the
/// boundaries before characters `i` and `j` gives exactly those
/// characters, so two adjacent slices concatenate to the slice over both,
/// and the whole range gives the whole string.
#[verifier::spinoff_prover]
pub proof fn law_utf16_slices_concatenate(s: Seq<char>, i: int, j: int, k: int)
    requires
        0 <= i <= j <= k <= s.len(),
    ensures
        utf16_slice_text(s, utf16_offset(s, i), utf16_offset(s, j)) == s.subrange(i, j),
        utf16_slice_text(s, utf16_offset(s, i), utf16_offset(s, j)) + utf16_slice_text(
            s,
            utf16_offset(s, j),
            utf16_offset(s, k),
        ) == utf16_slice_text(s, utf16_offset(s, i), utf16_offset(s, k)),
        utf16_slice_text(s, 0, encode_utf16(s).len() as int) == s,
{
    lemma_slice_between(s, i, j);
    lemma_slice_between(s, j, k);
    lemma_slice_between(s, i, k);
    lemma_slice_between(s, 0, s.len() as int);
    assert(s.take(0) =~= Seq::<char>::empty());
    assert(encode_utf16(Seq::<char>::empty()).len() == 0);
    assert(s.take(s.len() as int) =~= s);
    assert(s.subrange(0, s.len() as int) =~= s);
    assert(s.subrange(i, j) + s.subrange(j, k) =~= s.subrange(i, k));
}

/// The slice between the boundaries before characters `i` and `j` is
/// those characters.
proof fn lemma_slice_between(s: Seq<char>, i: int, j: int)
    requires
        0 <= i <= j <= s.len(),
    ensures
        utf16_offset(s, i) <= utf16_offset(s, j) <= encode_utf16(s).len(),
        utf16_slice_text(s, utf16_offset(s, i), utf16_offset(s, j)) == s.subrange(i, j),
{
    let x = s.take(i);
    let y = s.subrange(i, j);
    let z = s.skip(j);
    assert(s =~= x + y + z);
    assert(s.take(j) =~= x + y);
    lemma_encode_concat(x, y);
    lemma_encode_concat(x + y, z);
    let units = encode_utf16(s);
    let a = encode_utf16(x).len() as int;
    let b = a + encode_utf16(y).len();
    assert(units.subrange(a, b) =~= encode_utf16(y));
    law_utf16_round_trip(y);
}

/// Encoding a concatenation concatenates the encodings.
proof fn lemma_encode_concat(x: Seq<char>, y: Seq<char>)
    ensures
        encode_utf16(x + y) == encode_utf16(x) + encode_utf16(y),
    decreases y.len(),
{
    if y.len() == 0 {
        assert(x + y =~= x);
        assert(encode_utf16(y) =~= Seq::<u16>::empty());
        assert(encode_utf16(x) + encode_utf16(y) =~= encode_utf16(x));
    } else {
        lemma_encode_concat(x, y.drop_last());
        assert((x + y).drop_last() =~= x + y.drop_last());
        assert((x + y).last() == y.last());
        assert(encode_utf16(x + y) =~= encode_utf16(x) + encode_utf16(y));
    }
}

proof fn lemma_encode_front(s: Seq<char>)
    ensures
        decode_utf16_lossy(encode_utf16(s)) == s,
    decreases s.len(),
{
    if s.len() > 0 {
        let c = s[0];
        let t = s.drop_first();
        lemma_encode_split(s);
        lemma_encode_front(t);
        vstd::utf8::char_is_scalar(c);
        let cv = c as u32;
        vstd::utf8::char_u32_cast(c, cv);
        let one = seq![c];
        assert(one.drop_last() =~= Seq::<char>::empty());
        assert(one.last() == c);
        let u = encode_utf16(s);
        let e = encode_utf16(one);
        assert(encode_utf16(Seq::<char>::empty()) =~= Seq::<u16>::empty());
        assert(u == e + encode_utf16(t));
        if cv < 0x10000 {
            assert(e == encode_utf16(one.drop_last()).push(cv as u16));
            assert(e =~= seq![cv as u16]);
            assert(!(0xd800 <= cv && cv <= 0xdfff));
            assert(u[0] == cv as u16);
            assert(u.skip(1) =~= encode_utf16(t));
            assert((cv as u16) as u32 == cv);
        } else {
            let q = (cv - 0x10000) / 1024;
            let r = (cv - 0x10000) % 1024;
            assert(cv <= 0x10ffff);
            vstd::arithmetic::div_mod::lemma_fundamental_div_mod((cv - 0x10000) as int, 1024);
            assert(q < 1024);
            assert(r < 1024);
            let hi = (0xd800 + q) as u16;
            let lo = (0xdc00 + r) as u16;
            assert(hi as int == 0xd800 + q);
            assert(lo as int == 0xdc00 + r);
            assert(e == encode_utf16(one.drop_last()).push(hi).push(lo));
            assert(e =~= seq![hi, lo]);
            assert(u[0] == hi && u[1] == lo);
            assert(u.skip(2) =~= encode_utf16(t));
            assert(0x10000 + (hi - 0xd800) * 1024 + (lo - 0xdc00) == cv);
            assert(pair_char(hi, lo) == c);
        }
        assert(decode_utf16_lossy(u) =~= s);
    }
}

proof fn lemma_encode_split(s: Seq<char>)
    requires
        s.len() > 0,
    ensures
        encode_utf16(s) == encode_utf16(seq![s[0]]) + encode_utf16(s.drop_first()),
    decreases s.len(),
{
    if s.len() == 1 {
        assert(s.drop_first() =~= Seq::<char>::empty());
        assert(s =~= seq![s[0]]);
        assert(encode_utf16(seq![s[0]]) + encode_utf16(Seq::<char>::empty()) =~= encode_utf16(seq![s[0]]));
    } else {
        let d = s.drop_last();
        lemma_encode_split(d);
        assert(d.drop_first() =~= s.drop_first().drop_last());
        assert(d[0] == s[0]);
        assert(s.drop_first().last() == s.last());
        let c = s.last() as u32;
        if c < 0x10000 {
            assert(encode_utf16(s) =~= encode_utf16(seq![s[0]]) + encode_utf16(s.drop_first()));
        } else {
            assert(encode_utf16(s) =~= encode_utf16(seq![s[0]]) + encode_utf16(s.drop_first()));
        }
    }
}

} // verus!
