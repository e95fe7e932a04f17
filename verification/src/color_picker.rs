//! Colors of Tasks and terminal tabs: the eight preset swatches, the
//! persisted form `#rrggbb` (lowercase), normalizing what a user types into
//! it, and reading it back as `0xRRGGBB`.
use vstd::prelude::*;
use crate::text::{chars_of, string_of, trim_range, trimmed, TrimClass};
use crate::ghostty_color::{digit_value, digits_value};

verus! {

/// Whether `c` is an ASCII hex digit.
pub open spec fn is_hex_digit(c: char) -> bool {
    ('0' <= c <= '9') || ('a' <= c <= 'f') || ('A' <= c <= 'F')
}

/// Whether `s` is six ASCII hex digits.
pub open spec fn six_hex(s: Seq<char>) -> bool {
    s.len() == 6 && forall|i: int| 0 <= i < 6 ==> is_hex_digit(#[trigger] s[i])
}

/// The ASCII lowercase of `c`.
pub open spec fn ascii_lower(c: char) -> char {
    if 'A' <= c <= 'Z' {
        ((c as u8) + 32) as char
    } else {
        c
    }
}

/// The hex digits a user typed: trimmed of whitespace, without one leading
/// `#`.
pub open spec fn typed_hex(input: Seq<char>) -> Seq<char> {
    let t = trimmed(input, TrimClass::Unicode);
    if t.len() > 0 && t[0] == '#' {
        t.drop_first()
    } else {
        t
    }
}

/// The persisted form of what a user typed: `#` and the six hex digits in
/// lowercase; `None` unless exactly six hex digits were typed.
pub open spec fn normalized(input: Seq<char>) -> Option<Seq<char>> {
    let hex = typed_hex(input);
    if six_hex(hex) {
        Some(seq!['#'] + hex.map_values(|c: char| ascii_lower(c)))
    } else {
        None
    }
}

/// The color a persisted `#rrggbb` stands for; `None` for anything else.
pub open spec fn persisted_rgb(color: Seq<char>) -> Option<u32> {
    if color.len() == 7 && color[0] == '#' && six_hex(color.drop_first()) {
        Some(digits_value(color.drop_first(), 16) as u32)
    } else {
        None
    }
}

fn hex_digit(c: char) -> (r: bool)
    ensures
        r == is_hex_digit(c),
{
    ('0' <= c && c <= '9') || ('a' <= c && c <= 'f') || ('A' <= c && c <= 'F')
}

fn six_hex_at(v: &Vec<char>, a: usize, b: usize) -> (r: bool)
    requires
        a <= b <= v@.len(),
    ensures
        r == six_hex(v@.subrange(a as int, b as int)),
{
    if b - a != 6 {
        return false;
    }
    let mut i: usize = a;
    while i < b
        invariant
            a <= i <= b,
            b == a + 6,
            b <= v@.len(),
            forall|j: int| a <= j < i ==> is_hex_digit(v@[j]),
        decreases b - i,
    {
        if !hex_digit(v[i]) {
            assert(v@.subrange(a as int, b as int)[i - a] == v@[i as int]);
            return false;
        }
        i += 1;
    }
    assert forall|j: int| 0 <= j < 6 implies is_hex_digit(#[trigger] v@.subrange(a as int, b as int)[j]) by {
        assert(v@.subrange(a as int, b as int)[j] == v@[a + j]);
    }
    true
}

/// Normalizes typed text to the persisted form: surrounding whitespace and
/// a leading `#` are allowed, exactly six hex digits are required, and the
/// result is `#` plus the digits in lowercase.
pub fn normalize_hex_color(input: &str) -> (r: Option<String>)
    ensures
        match r {
            Some(s) => normalized(input@) == Some(s@),
            None => normalized(input@) is None,
        },
{
    let v = chars_of(input);
    let n = v.len();
    assert(v@.subrange(0, n as int) =~= v@);
    let (a0, b) = trim_range(&v, 0, n, TrimClass::Unicode);
    let a = if a0 < b && v[a0] == '#' {
        a0 + 1
    } else {
        a0
    };
    assert(typed_hex(input@) =~= v@.subrange(a as int, b as int));
    if !six_hex_at(&v, a, b) {
        return None;
    }
    let mut out: Vec<char> = Vec::new();
    out.push('#');
    let mut i: usize = a;
    while i < b
        invariant
            a <= i <= b,
            b <= v@.len(),
            out@ == seq!['#'] + v@.subrange(a as int, i as int).map_values(|c: char| ascii_lower(c)),
        decreases b - i,
    {
        let c = v[i];
        let l = if 'A' <= c && c <= 'Z' {
            ((c as u8) + 32) as char
        } else {
            c
        };
        out.push(l);
        i += 1;
        assert(out@ =~= seq!['#'] + v@.subrange(a as int, i as int).map_values(|c: char| ascii_lower(c)));
    }
    Some(string_of(&out))
}

/// Reads a persisted `#rrggbb` as `0xRRGGBB`; `None` for text in any other
/// form.
pub fn parse_hex_rgb(color: &str) -> (r: Option<u32>)
    ensures
        r == persisted_rgb(color@),
{
    let v = chars_of(color);
    let n = v.len();
    if n == 0 || v[0] != '#' {
        return None;
    }
    assert(v@.subrange(1, n as int) =~= color@.drop_first());
    if !six_hex_at(&v, 1, n) {
        return None;
    }
    let ghost h = color@.drop_first();
    proof {
        reveal_with_fuel(pow16, 7);
    }
    let mut acc: u32 = 0;
    let mut i: usize = 1;
    assert(h.take(0) =~= Seq::<char>::empty());
    while i < 7
        invariant
            1 <= i <= 7,
            n == 7,
            n == v@.len(),
            v@ == color@,
            h == color@.drop_first(),
            six_hex(h),
            acc as nat == digits_value(h.take(i - 1), 16),
            acc < pow16(i - 1),
            i - 1 <= 5 ==> pow16(i - 1) <= 1048576,
        decreases 7 - i,
    {
        let c = v[i];
        assert(h[i - 1] == c);
        assert(is_hex_digit(h[i - 1]));
        let d: u32 = if '0' <= c && c <= '9' {
            c as u32 - 48
        } else if 'a' <= c && c <= 'f' {
            c as u32 - 97 + 10
        } else {
            c as u32 - 65 + 10
        };
        proof {
            let k = i - 1;
            assert(h[k] == c);
            assert(is_hex_digit(h[k]));
            let t = h.take(k + 1);
            assert(t.drop_last() =~= h.take(k));
            assert(t.last() == c);
            assert(digit_value(c, 16) == Some(d as nat));
            assert(pow16(k + 1) == pow16(k) * 16);
            assert(acc * 16 + d < pow16(k + 1)) by (nonlinear_arith)
                requires
                    acc < pow16(k),
                    d < 16,
                    pow16(k + 1) == pow16(k) * 16,
            ;
            if k + 1 <= 5 {
                reveal_with_fuel(pow16, 7);
            }
        }
        acc = acc * 16 + d;
        i += 1;
    }
    assert(h.take(6) =~= h);
    Some(acc)
}

/// `16^k` for the six digit positions.
pub open spec fn pow16(k: int) -> nat
    decreases k,
{
    if k <= 0 {
        1
    } else {
        16 * pow16(k - 1)
    }
}

/// The value of six hex digits, digit by digit.
pub open spec fn hex6_value(d: Seq<char>) -> nat {
    ((((dv(d[0]) * 16 + dv(d[1])) * 16 + dv(d[2])) * 16 + dv(d[3])) * 16 + dv(d[4])) * 16 + dv(d[5])
}

proof fn lemma_persisted_six(s: Seq<char>)
    requires
        s.len() == 7,
        s[0] == '#',
        six_hex(s.drop_first()),
    ensures
        persisted_rgb(s) == Some(hex6_value(s.drop_first()) as u32),
{
    let d = s.drop_first();
    let d5 = d.drop_last();
    let d4 = d5.drop_last();
    let d3 = d4.drop_last();
    let d2 = d3.drop_last();
    let d1 = d2.drop_last();
    let d0 = d1.drop_last();
    assert(d0.len() == 0);
    assert(digits_value(d0, 16) == 0);
    assert(d1.last() == d[0] && d2.last() == d[1] && d3.last() == d[2] && d4.last() == d[3] && d5.last() == d[4]
        && d.last() == d[5]);
    assert(digits_value(d1, 16) == digits_value(d0, 16) * 16 + dv(d[0]));
    assert(digits_value(d2, 16) == digits_value(d1, 16) * 16 + dv(d[1]));
    assert(digits_value(d3, 16) == digits_value(d2, 16) * 16 + dv(d[2]));
    assert(digits_value(d4, 16) == digits_value(d3, 16) * 16 + dv(d[3]));
    assert(digits_value(d5, 16) == digits_value(d4, 16) * 16 + dv(d[4]));
    assert(digits_value(d, 16) == digits_value(d5, 16) * 16 + dv(d[5]));
}

/// The value of one hex digit (0 for a non-digit).
pub open spec fn dv(c: char) -> nat {
    match digit_value(c, 16) {
        Some(x) => x,
        None => 0,
    }
}

/// `#` and six lowercase hex digits is already the normalized form.
proof fn lemma_lowercase_form_is_normalized(s: Seq<char>)
    requires
        s.len() == 7,
        s[0] == '#',
        forall|i: int| 1 <= i < 7 ==> ('0' <= #[trigger] s[i] <= '9') || ('a' <= s[i] <= 'f'),
    ensures
        normalized(s) == Some(s),
{
    assert(('0' <= s[6] <= '9') || ('a' <= s[6] <= 'f'));
    crate::text::lemma_trimmed_unchanged(s, TrimClass::Unicode);
    let hex = s.drop_first();
    assert(typed_hex(s) == hex);
    assert forall|i: int| 0 <= i < 6 implies is_hex_digit(#[trigger] hex[i]) && ascii_lower(hex[i]) == hex[i] by {
        assert(hex[i] == s[i + 1]);
    }
    assert(six_hex(hex));
    assert(seq!['#'] + hex.map_values(|c: char| ascii_lower(c)) =~= s);
}

proof fn lemma_preset_0()
    ensures
        normalized("#d0ff00"@) == Some("#d0ff00"@),
        persisted_rgb("#d0ff00"@) == Some(0xd0ff00u32),
{
    reveal_strlit("#d0ff00");
    let s = seq!['#', 'd', '0', 'f', 'f', '0', '0'];
    assert("#d0ff00"@ =~= s);
    assert(six_hex(s.drop_first()));
    lemma_persisted_six(s);
    lemma_lowercase_form_is_normalized(s);
}

proof fn lemma_preset_1()
    ensures
        normalized("#5e9eff"@) == Some("#5e9eff"@),
        persisted_rgb("#5e9eff"@) == Some(0x5e9effu32),
{
    reveal_strlit("#5e9eff");
    let s = seq!['#', '5', 'e', '9', 'e', 'f', 'f'];
    assert("#5e9eff"@ =~= s);
    assert(six_hex(s.drop_first()));
    lemma_persisted_six(s);
    lemma_lowercase_form_is_normalized(s);
}

proof fn lemma_preset_2()
    ensures
        normalized("#30d158"@) == Some("#30d158"@),
        persisted_rgb("#30d158"@) == Some(0x30d158u32),
{
    reveal_strlit("#30d158");
    let s = seq!['#', '3', '0', 'd', '1', '5', '8'];
    assert("#30d158"@ =~= s);
    assert(six_hex(s.drop_first()));
    lemma_persisted_six(s);
    lemma_lowercase_form_is_normalized(s);
}

proof fn lemma_preset_3()
    ensures
        normalized("#ffd60a"@) == Some("#ffd60a"@),
        persisted_rgb("#ffd60a"@) == Some(0xffd60au32),
{
    reveal_strlit("#ffd60a");
    let s = seq!['#', 'f', 'f', 'd', '6', '0', 'a'];
    assert("#ffd60a"@ =~= s);
    assert(six_hex(s.drop_first()));
    lemma_persisted_six(s);
    lemma_lowercase_form_is_normalized(s);
}

proof fn lemma_preset_4()
    ensures
        normalized("#ff9f0a"@) == Some("#ff9f0a"@),
        persisted_rgb("#ff9f0a"@) == Some(0xff9f0au32),
{
    reveal_strlit("#ff9f0a");
    let s = seq!['#', 'f', 'f', '9', 'f', '0', 'a'];
    assert("#ff9f0a"@ =~= s);
    assert(six_hex(s.drop_first()));
    lemma_persisted_six(s);
    lemma_lowercase_form_is_normalized(s);
}

proof fn lemma_preset_5()
    ensures
        normalized("#ff6b6b"@) == Some("#ff6b6b"@),
        persisted_rgb("#ff6b6b"@) == Some(0xff6b6bu32),
{
    reveal_strlit("#ff6b6b");
    let s = seq!['#', 'f', 'f', '6', 'b', '6', 'b'];
    assert("#ff6b6b"@ =~= s);
    assert(six_hex(s.drop_first()));
    lemma_persisted_six(s);
    lemma_lowercase_form_is_normalized(s);
}

proof fn lemma_preset_6()
    ensures
        normalized("#bf5af2"@) == Some("#bf5af2"@),
        persisted_rgb("#bf5af2"@) == Some(0xbf5af2u32),
{
    reveal_strlit("#bf5af2");
    let s = seq!['#', 'b', 'f', '5', 'a', 'f', '2'];
    assert("#bf5af2"@ =~= s);
    assert(six_hex(s.drop_first()));
    lemma_persisted_six(s);
    lemma_lowercase_form_is_normalized(s);
}

proof fn lemma_preset_7()
    ensures
        normalized("#8e8e93"@) == Some("#8e8e93"@),
        persisted_rgb("#8e8e93"@) == Some(0x8e8e93u32),
{
    reveal_strlit("#8e8e93");
    let s = seq!['#', '8', 'e', '8', 'e', '9', '3'];
    assert("#8e8e93"@ =~= s);
    assert(six_hex(s.drop_first()));
    lemma_persisted_six(s);
    lemma_lowercase_form_is_normalized(s);
}

/// The eight preset swatches in menu order: the persisted form and the
/// color it stands for (the brand lime, blue, green, yellow, orange, red,
/// purple, gray).
pub open spec fn preset_table() -> Seq<(Seq<char>, u32)> {
    seq![
        ("#d0ff00"@, 0xd0ff00u32),
        ("#5e9eff"@, 0x5e9effu32),
        ("#30d158"@, 0x30d158u32),
        ("#ffd60a"@, 0xffd60au32),
        ("#ff9f0a"@, 0xff9f0au32),
        ("#ff6b6b"@, 0xff6b6bu32),
        ("#bf5af2"@, 0xbf5af2u32),
        ("#8e8e93"@, 0x8e8e93u32),
    ]
}

/// The eight preset swatches (see [`preset_table`]). Each form is already
/// normalized and reads back as its color.
pub fn preset_colors() -> (r: Vec<(&'static str, u32)>)
    ensures
        r@.len() == 8,
        forall|i: int| 0 <= i < 8 ==> (#[trigger] r@[i]).0@ == preset_table()[i].0 && r@[i].1 == preset_table()[i].1,
        forall|i: int|
            0 <= i < 8 ==> persisted_rgb((#[trigger] r@[i]).0@) == Some(r@[i].1) && normalized(r@[i].0@) == Some(
                r@[i].0@,
            ),
{
    let mut v: Vec<(&'static str, u32)> = Vec::new();
    v.push(("#d0ff00", 0xd0ff00));
    v.push(("#5e9eff", 0x5e9eff));
    v.push(("#30d158", 0x30d158));
    v.push(("#ffd60a", 0xffd60a));
    v.push(("#ff9f0a", 0xff9f0a));
    v.push(("#ff6b6b", 0xff6b6b));
    v.push(("#bf5af2", 0xbf5af2));
    v.push(("#8e8e93", 0x8e8e93));
    proof {
        lemma_preset_0();
        lemma_preset_1();
        lemma_preset_2();
        lemma_preset_3();
        lemma_preset_4();
        lemma_preset_5();
        lemma_preset_6();
        lemma_preset_7();
    }
    v
}

proof fn lemma_lower_keeps_digit(c: char)
    requires
        is_hex_digit(c),
    ensures
        is_hex_digit(ascii_lower(c)),
        digit_value(ascii_lower(c), 16) == digit_value(c, 16),
        ascii_lower(ascii_lower(c)) == ascii_lower(c),
        !crate::text::in_class(TrimClass::Unicode, ascii_lower(c)),
{
}

proof fn lemma_digits_value_pointwise(a: Seq<char>, b: Seq<char>)
    requires
        a.len() == b.len(),
        forall|i: int| 0 <= i < a.len() ==> digit_value(#[trigger] a[i], 16) == digit_value(b[i], 16),
    ensures
        digits_value(a, 16) == digits_value(b, 16),
    decreases a.len(),
{
    if a.len() > 0 {
        lemma_digits_value_pointwise(a.drop_last(), b.drop_last());
        assert(digit_value(a[a.len() - 1], 16) == digit_value(b[b.len() - 1], 16));
    }
}

/// What normalizing gives always reads back, as the color that the typed
/// digits spell in any case; and normalizing it again changes nothing.
pub proof fn law_normalized_color_reads_back(input: Seq<char>)
    ensures
        normalized(input) matches Some(n) ==> persisted_rgb(n) == Some(digits_value(typed_hex(input), 16) as u32)
            && normalized(n) == Some(n),
{
    if let Some(n) = normalized(input) {
        let hex = typed_hex(input);
        let low = hex.map_values(|c: char| ascii_lower(c));
        assert forall|i: int| 0 <= i < 6 implies is_hex_digit(#[trigger] low[i]) && digit_value(low[i], 16)
            == digit_value(hex[i], 16) by {
            lemma_lower_keeps_digit(hex[i]);
        }
        assert(n.drop_first() =~= low);
        lemma_digits_value_pointwise(low, hex);
        lemma_lower_keeps_digit(hex[5]);
        crate::text::lemma_trimmed_unchanged(n, TrimClass::Unicode);
        assert(typed_hex(n) =~= low);
        assert(low.map_values(|c: char| ascii_lower(c)) =~= low) by {
            assert forall|i: int| 0 <= i < 6 implies low.map_values(|c: char| ascii_lower(c))[i] == low[i] by {
                lemma_lower_keeps_digit(hex[i]);
            }
        }
    }
}

} // verus!
