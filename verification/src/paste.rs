//! Encoding of a clipboard paste into the bytes written to a pane's PTY:
//! unsafe control characters are stripped, every line ending becomes a bare
//! `"\r"`, and a bracketed paste is wrapped in `ESC[200~ ... ESC[201~`.
use vstd::prelude::*;
use vstd::string::*;
use crate::text::{chars_of, string_of};

verus! {

/// The bracketed-paste start marker `ESC [ 2 0 0 ~`.
pub open spec fn bracketed_start() -> Seq<u8> {
    seq![0x1bu8, 0x5bu8, 0x32u8, 0x30u8, 0x30u8, 0x7eu8]
}

/// The bracketed-paste end marker `ESC [ 2 0 1 ~`.
pub open spec fn bracketed_end() -> Seq<u8> {
    seq![0x1bu8, 0x5bu8, 0x32u8, 0x30u8, 0x31u8, 0x7eu8]
}

/// A C0 control character (or DEL) other than tab, LF and CR.
pub open spec fn is_unsafe_control(c: char) -> bool {
    ((c as u32) <= 0x1f || (c as u32) == 0x7f) && !(c == '\t' || c == '\n' || c == '\r')
}

/// `s` with every unsafe control character removed.
pub open spec fn strip_unsafe(s: Seq<char>) -> Seq<char>
    decreases s.len(),
{
    if s.len() == 0 {
        s
    } else if is_unsafe_control(s.last()) {
        strip_unsafe(s.drop_last())
    } else {
        strip_unsafe(s.drop_last()).push(s.last())
    }
}

/// `s` with `"\r\n"` collapsed to `"\r"` and every other `"\n"` turned into
/// `"\r"`.
pub open spec fn normalize_newlines(s: Seq<char>) -> Seq<char>
    decreases s.len(),
{
    if s.len() == 0 {
        s
    } else if s[0] == '\r' && s.len() > 1 && s[1] == '\n' {
        seq!['\r'] + normalize_newlines(s.skip(2))
    } else if s[0] == '\n' {
        seq!['\r'] + normalize_newlines(s.skip(1))
    } else {
        seq![s[0]] + normalize_newlines(s.skip(1))
    }
}

/// The characters a paste of `text` sends (before UTF-8 encoding and the
/// optional bracketed wrapper).
pub open spec fn paste_chars(text: Seq<char>) -> Seq<char> {
    normalize_newlines(strip_unsafe(text))
}

/// The bytes a paste of `text` writes to the PTY.
pub open spec fn paste_bytes(text: Seq<char>, bracketed: bool) -> Seq<u8> {
    let body = vstd::utf8::encode_utf8(paste_chars(text));
    if bracketed {
        bracketed_start() + body + bracketed_end()
    } else {
        body
    }
}

/// Encodes a clipboard string as the bytes to write to a pane's PTY:
/// unsafe control characters stripped, line endings normalized to `"\r"`,
/// and, when `bracketed`, wrapped in `ESC[200~ ... ESC[201~`.
pub fn encode_paste(text: &str, bracketed: bool) -> (r: Vec<u8>)
    ensures
        r@ == paste_bytes(text@, bracketed),
{
    let sanitized = strip_unsafe_control_bytes(text);
    let normalized = normalize_paste_newlines(sanitized.as_str());
    let body = normalized.as_str().as_bytes();
    let mut out: Vec<u8> = Vec::new();
    if bracketed {
        out.push(0x1bu8);
        out.push(0x5bu8);
        out.push(0x32u8);
        out.push(0x30u8);
        out.push(0x30u8);
        out.push(0x7eu8);
    }
    let start_len = out.len();
    let ghost prefix = out@;
    let n = body.len();
    let mut i: usize = 0;
    while i < n
        invariant
            n == body@.len(),
            i <= n,
            out@ == prefix + body@.subrange(0, i as int),
        decreases n - i,
    {
        out.push(body[i]);
        i += 1;
        assert(out@ =~= prefix + body@.subrange(0, i as int));
    }
    assert(body@.subrange(0, n as int) =~= body@);
    if bracketed {
        out.push(0x1bu8);
        out.push(0x5bu8);
        out.push(0x32u8);
        out.push(0x30u8);
        out.push(0x31u8);
        out.push(0x7eu8);
        assert(out@ =~= bracketed_start() + body@ + bracketed_end());
    } else {
        assert(out@ =~= body@);
    }
    out
}

/// Normalizes every line ending in `text` to a bare `"\r"`: `"\r\n"`
/// collapses to `"\r"`, a lone `"\n"` becomes `"\r"`, a lone `"\r"` stays.
pub fn normalize_paste_newlines(text: &str) -> (r: String)
    ensures
        r@ == normalize_newlines(text@),
{
    let v = chars_of(text);
    let n = v.len();
    let mut out: Vec<char> = Vec::new();
    let mut i: usize = 0;
    assert(v@.skip(0) =~= v@);
    while i < n
        invariant
            n == v@.len(),
            i <= n,
            out@ + normalize_newlines(v@.skip(i as int)) == normalize_newlines(v@),
        decreases n - i,
    {
        let ghost rest = v@.skip(i as int);
        let c = v[i];
        if c == '\r' && i + 1 < n && v[i + 1] == '\n' {
            out.push('\r');
            assert(rest.skip(2) =~= v@.skip(i + 2));
            i += 2;
        } else if c == '\n' {
            out.push('\r');
            assert(rest.skip(1) =~= v@.skip(i + 1));
            i += 1;
        } else {
            out.push(c);
            assert(rest.skip(1) =~= v@.skip(i + 1));
            i += 1;
        }
        assert(out@ + normalize_newlines(v@.skip(i as int)) =~= normalize_newlines(v@));
    }
    assert(v@.skip(n as int) =~= Seq::<char>::empty());
    assert(out@ =~= normalize_newlines(v@));
    string_of(&out)
}

/// Removes every unsafe control character from `text` (every C0 control
/// except tab, LF and CR, plus DEL) -- in particular every `ESC`, so that a
/// pasted payload cannot embed its own bracketed-paste end marker.
pub fn strip_unsafe_control_bytes(text: &str) -> (r: String)
    ensures
        r@ == strip_unsafe(text@),
{
    let v = chars_of(text);
    let n = v.len();
    let mut out: Vec<char> = Vec::new();
    let mut i: usize = 0;
    while i < n
        invariant
            n == v@.len(),
            i <= n,
            out@ == strip_unsafe(v@.subrange(0, i as int)),
        decreases n - i,
    {
        let c = v[i];
        let code = c as u32;
        let stripped = (code <= 0x1f || code == 0x7f) && !(c == '\t' || c == '\n' || c == '\r');
        if !stripped {
            out.push(c);
        }
        assert(v@.subrange(0, i + 1).drop_last() =~= v@.subrange(0, i as int));
        i += 1;
    }
    assert(v@.subrange(0, n as int) =~= v@);
    string_of(&out)
}

/// Stripping leaves no unsafe control character behind.
pub proof fn lemma_strip_removes_unsafe(s: Seq<char>)
    ensures
        forall|i: int| 0 <= i < strip_unsafe(s).len() ==> !is_unsafe_control(#[trigger] strip_unsafe(s)[i]),
    decreases s.len(),
{
    if s.len() > 0 {
        lemma_strip_removes_unsafe(s.drop_last());
        let r = strip_unsafe(s.drop_last());
        assert forall|i: int| 0 <= i < strip_unsafe(s).len() implies !is_unsafe_control(#[trigger] strip_unsafe(s)[i]) by {
            if i < r.len() {
                assert(strip_unsafe(s)[i] == r[i]);
            }
        }
    }
}

/// Normalizing keeps every character other than LF, and produces no LF.
pub proof fn lemma_normalize_chars(s: Seq<char>)
    ensures
        forall|i: int| 0 <= i < normalize_newlines(s).len() ==> #[trigger] normalize_newlines(s)[i] != '\n',
        forall|i: int| 0 <= i < normalize_newlines(s).len() ==> (exists|j: int| 0 <= j < s.len() && s[j] == #[trigger] normalize_newlines(s)[i]) || normalize_newlines(s)[i] == '\r',
    decreases s.len(),
{
    if s.len() > 0 {
        let k: int = if s[0] == '\r' && s.len() > 1 && s[1] == '\n' { 2 } else { 1 };
        let t = s.skip(k);
        lemma_normalize_chars(t);
        let r = normalize_newlines(s);
        let rt = normalize_newlines(t);
        assert(r == seq![if s[0] == '\n' { '\r' } else { s[0] }] + rt);
        assert forall|i: int| 0 <= i < r.len() implies (exists|j: int| 0 <= j < s.len() && s[j] == #[trigger] r[i]) || r[i] == '\r' by {
            if i > 0 {
                assert(r[i] == rt[i - 1]);
                if exists|j: int| 0 <= j < t.len() && t[j] == rt[i - 1] {
                    let j = choose|j: int| 0 <= j < t.len() && t[j] == rt[i - 1];
                    assert(s[j + k] == t[j]);
                }
            } else if s[0] != '\n' {
                assert(s[0] == r[0]);
            }
        }
        assert forall|i: int| 0 <= i < r.len() implies #[trigger] r[i] != '\n' by {
            if i > 0 {
                assert(r[i] == rt[i - 1]);
            }
        }
    }
}

/// What a paste sends contains no `ESC` and no LF: a pasted payload can
/// never carry an escape sequence of its own, nor a raw line feed.
pub proof fn law_paste_has_no_escape_or_lf(text: Seq<char>)
    ensures
        forall|i: int| 0 <= i < paste_chars(text).len() ==> #[trigger] paste_chars(text)[i] != '\u{1b}' && paste_chars(text)[i] != '\n',
{
    let s = strip_unsafe(text);
    lemma_strip_removes_unsafe(text);
    lemma_normalize_chars(s);
    assert forall|i: int| 0 <= i < paste_chars(text).len() implies #[trigger] paste_chars(text)[i] != '\u{1b}' && paste_chars(text)[i] != '\n' by {
        let c = paste_chars(text)[i];
        if c == '\u{1b}' {
            let j = choose|j: int| 0 <= j < s.len() && s[j] == normalize_newlines(s)[i];
            assert(!is_unsafe_control(s[j]));
        }
    }
}

/// Normalizing line endings twice is the same as normalizing once.
pub proof fn law_normalize_newlines_idempotent(s: Seq<char>)
    ensures
        normalize_newlines(normalize_newlines(s)) == normalize_newlines(s),
    decreases s.len(),
{
    lemma_normalize_chars(s);
    lemma_no_lf_fixed(normalize_newlines(s));
}

/// A sequence without LF is left unchanged by normalization.
pub proof fn lemma_no_lf_fixed(s: Seq<char>)
    requires
        forall|i: int| 0 <= i < s.len() ==> s[i] != '\n',
    ensures
        normalize_newlines(s) == s,
    decreases s.len(),
{
    if s.len() > 0 {
        let t = s.skip(1);
        assert forall|i: int| 0 <= i < t.len() implies t[i] != '\n' by {
            assert(t[i] == s[i + 1]);
        }
        lemma_no_lf_fixed(t);
        assert(s =~= seq![s[0]] + t);
    }
}

/// Stripping twice is the same as stripping once.
pub proof fn law_strip_idempotent(s: Seq<char>)
    ensures
        strip_unsafe(strip_unsafe(s)) == strip_unsafe(s),
    decreases s.len(),
{
    if s.len() > 0 {
        law_strip_idempotent(s.drop_last());
        let r = strip_unsafe(s.drop_last());
        if !is_unsafe_control(s.last()) {
            assert(r.push(s.last()).drop_last() =~= r);
        }
    }
}

/// Whether `c` survives stripping: tab, LF and CR, and every character
/// that is neither a C0 control (U+0000 to U+001F) nor DEL (U+007F).
pub open spec fn kept_by_strip(c: char) -> bool {
    c == '\t' || c == '\n' || c == '\r' || ((c as u32) >= 0x20 && (c as u32) != 0x7f)
}

/// Stripping works character by character: a text of kept characters
/// (tab, LF, CR and everything but C0 controls and DEL) is left exactly as
/// it is, any other single character is removed, and stripping a
/// concatenation concatenates the stripped parts.
pub proof fn law_strip_keeps_tab_lf_cr_and_printable_text(s: Seq<char>, t: Seq<char>, c: char)
    ensures
        (forall|i: int| 0 <= i < s.len() ==> kept_by_strip(#[trigger] s[i])) ==> strip_unsafe(s) == s,
        !kept_by_strip(c) ==> strip_unsafe(seq![c]) == Seq::<char>::empty(),
        kept_by_strip(c) ==> strip_unsafe(seq![c]) == seq![c],
        strip_unsafe(s + t) == strip_unsafe(s) + strip_unsafe(t),
{
    lemma_strip_kept(s);
    lemma_strip_concat(s, t);
    lemma_strip_kept(seq![c]);
    let one = seq![c];
    assert(one.drop_last() =~= Seq::<char>::empty());
    assert(one.last() == c);
    assert(strip_unsafe(Seq::<char>::empty()) =~= Seq::<char>::empty());
    if !kept_by_strip(c) {
        assert(is_unsafe_control(c));
        assert(strip_unsafe(one) == strip_unsafe(one.drop_last()));
    }
}

proof fn lemma_strip_kept(s: Seq<char>)
    ensures
        (forall|i: int| 0 <= i < s.len() ==> kept_by_strip(#[trigger] s[i])) ==> strip_unsafe(s) == s,
    decreases s.len(),
{
    if s.len() > 0 && forall|i: int| 0 <= i < s.len() ==> kept_by_strip(#[trigger] s[i]) {
        let d = s.drop_last();
        assert forall|i: int| 0 <= i < d.len() implies kept_by_strip(#[trigger] d[i]) by {
            assert(d[i] == s[i]);
        }
        lemma_strip_kept(d);
        assert(kept_by_strip(s[s.len() - 1]));
        assert(s.last() == s[s.len() - 1]);
        assert(!is_unsafe_control(s.last()));
        assert(d.push(s.last()) =~= s);
    }
}

proof fn lemma_strip_concat(s: Seq<char>, t: Seq<char>)
    ensures
        strip_unsafe(s + t) == strip_unsafe(s) + strip_unsafe(t),
    decreases t.len(),
{
    if t.len() == 0 {
        assert(s + t =~= s);
        assert(strip_unsafe(s) + strip_unsafe(t) =~= strip_unsafe(s));
    } else {
        lemma_strip_concat(s, t.drop_last());
        assert((s + t).drop_last() =~= s + t.drop_last());
        assert((s + t).last() == t.last());
        if is_unsafe_control(t.last()) {
        } else {
            assert(strip_unsafe(s) + strip_unsafe(t.drop_last()).push(t.last()) =~= (strip_unsafe(s)
                + strip_unsafe(t.drop_last())).push(t.last()));
        }
    }
}

/// A paste of text with no line breaks and no control characters other
/// than tabs is sent as exactly that text, tabs included (UTF-8 encoded,
/// inside the bracketed-paste markers when asked).
pub proof fn law_plain_paste_is_sent_as_is(text: Seq<char>, bracketed: bool)
    requires
        forall|i: int|
            0 <= i < text.len() ==> (#[trigger] text[i] == '\t' || ((text[i] as u32) >= 0x20 && (text[i] as u32)
                != 0x7f)),
    ensures
        paste_chars(text) == text,
        paste_bytes(text, bracketed) == if bracketed {
            bracketed_start() + vstd::utf8::encode_utf8(text) + bracketed_end()
        } else {
            vstd::utf8::encode_utf8(text)
        },
{
    assert forall|i: int| 0 <= i < text.len() implies kept_by_strip(#[trigger] text[i]) by {
        assert(text[i] == '\t' || ((text[i] as u32) >= 0x20 && (text[i] as u32) != 0x7f));
    }
    lemma_strip_kept(text);
    assert forall|i: int| 0 <= i < text.len() implies text[i] != '\n' by {
        assert(text[i] == '\t' || ((text[i] as u32) >= 0x20 && (text[i] as u32) != 0x7f));
    }
    lemma_no_lf_fixed(text);
}

} // verus!
