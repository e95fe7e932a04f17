//! Character-level helpers shared by the parsers and encoders of this crate:
//! moving between `&str`/`String` and `Vec<char>`, comparing against
//! literals, and decimal rendering of integers.
use vstd::prelude::*;
use vstd::string::*;

verus! {

/// The characters of `s`, in order.
pub fn chars_of(s: &str) -> (v: Vec<char>)
    ensures
        v@ == s@,
{
    let n = s.unicode_len();
    let mut v: Vec<char> = Vec::new();
    let mut i: usize = 0;
    while i < n
        invariant
            n == s@.len(),
            i <= n,
            v@ == s@.subrange(0, i as int),
        decreases n - i,
    {
        let c = s.get_char(i);
        v.push(c);
        i += 1;
        assert(v@ =~= s@.subrange(0, i as int));
    }
    assert(v@ =~= s@);
    v
}

/// `String::push`: appends one character.
#[verifier::external_body]
pub(crate) fn push_char(s: &mut String, c: char)
    ensures
        final(s)@ == old(s)@.push(c),
{
    s.push(c);
}

/// The string made of the characters of `v`, in order.
pub fn string_of(v: &Vec<char>) -> (s: String)
    ensures
        s@ == v@,
{
    let mut s = String::new();
    let n = v.len();
    let mut i: usize = 0;
    while i < n
        invariant
            n == v@.len(),
            i <= n,
            s@ == v@.subrange(0, i as int),
        decreases n - i,
    {
        push_char(&mut s, v[i]);
        i += 1;
        assert(s@ =~= v@.subrange(0, i as int));
    }
    assert(s@ =~= v@);
    s
}

/// The character at position `i` of `v`.
pub fn char_at(v: &Vec<char>, i: usize) -> (c: char)
    requires
        i < v@.len(),
    ensures
        c == v@[i as int],
{
    v[i]
}

/// Whether `a` holds exactly the characters of `b`.
pub fn eq_str(a: &Vec<char>, b: &str) -> (r: bool)
    ensures
        r == (a@ == b@),
{
    let n = b.unicode_len();
    if a.len() != n {
        return false;
    }
    let mut i: usize = 0;
    while i < n
        invariant
            n == b@.len(),
            n == a@.len(),
            i <= n,
            forall|j: int| 0 <= j < i ==> a@[j] == b@[j],
        decreases n - i,
    {
        if a[i] != b.get_char(i) {
            return false;
        }
        i += 1;
    }
    assert(a@ =~= b@);
    true
}

/// Whether `c` occurs in `s`.
pub open spec fn has_char(s: Seq<char>, c: char) -> bool {
    exists|i: int| 0 <= i < s.len() && s[i] == c
}

/// Whether `c` occurs in `v`.
pub fn contains_char(v: &Vec<char>, c: char) -> (r: bool)
    ensures
        r == has_char(v@, c),
{
    let n = v.len();
    let mut i: usize = 0;
    while i < n
        invariant
            n == v@.len(),
            i <= n,
            forall|j: int| 0 <= j < i ==> v@[j] != c,
        decreases n - i,
    {
        if v[i] == c {
            return true;
        }
        i += 1;
    }
    false
}

/// The index of the first occurrence of `c` in `s`, if any.
pub open spec fn first_index(s: Seq<char>, c: char) -> Option<int>
    decreases s.len(),
{
    if s.len() == 0 {
        None
    } else if s[0] == c {
        Some(0)
    } else {
        match first_index(s.drop_first(), c) {
            Some(i) => Some(i + 1),
            None => None,
        }
    }
}

/// `first_index` is the least position holding `c`.
pub proof fn lemma_first_index(s: Seq<char>, c: char, k: int)
    requires
        0 <= k <= s.len(),
        forall|j: int| 0 <= j < k ==> s[j] != c,
    ensures
        k < s.len() && s[k] == c ==> first_index(s, c) == Some(k),
        k == s.len() ==> first_index(s, c) is None,
    decreases s.len(),
{
    if s.len() > 0 && k > 0 {
        let t = s.drop_first();
        assert forall|j: int| 0 <= j < k - 1 implies t[j] != c by {
            assert(t[j] == s[j + 1]);
        }
        lemma_first_index(t, c, k - 1);
    }
}

/// Facts about a found position.
pub proof fn lemma_first_index_found(s: Seq<char>, c: char)
    ensures
        first_index(s, c) matches Some(k) ==> 0 <= k < s.len() && s[k] == c && forall|j: int|
            0 <= j < k ==> s[j] != c,
        first_index(s, c) is None ==> !has_char(s, c),
    decreases s.len(),
{
    if s.len() > 0 {
        let t = s.drop_first();
        lemma_first_index_found(t, c);
        if s[0] != c {
            if let Some(k) = first_index(t, c) {
                assert forall|j: int| 0 <= j < k + 1 implies s[j] != c by {
                    if j > 0 {
                        assert(s[j] == t[j - 1]);
                    }
                }
            } else {
                assert forall|i: int| 0 <= i < s.len() implies s[i] != c by {
                    if i > 0 {
                        assert(s[i] == t[i - 1]);
                    }
                }
            }
        }
    }
}

/// The position of the first `c` in `v`, if any.
pub fn find_char(v: &Vec<char>, c: char) -> (r: Option<usize>)
    ensures
        r matches Some(k) ==> first_index(v@, c) == Some(k as int),
        r is None ==> first_index(v@, c) is None,
{
    let n = v.len();
    let mut i: usize = 0;
    while i < n
        invariant
            n == v@.len(),
            i <= n,
            forall|j: int| 0 <= j < i ==> v@[j] != c,
        decreases n - i,
    {
        if v[i] == c {
            proof {
                lemma_first_index(v@, c, i as int);
            }
            return Some(i);
        }
        i += 1;
    }
    proof {
        lemma_first_index(v@, c, n as int);
    }
    None
}

/// The characters `v[from..to]`.
pub fn slice_chars(v: &Vec<char>, from: usize, to: usize) -> (r: Vec<char>)
    requires
        from <= to <= v@.len(),
    ensures
        r@ == v@.subrange(from as int, to as int),
{
    let mut r: Vec<char> = Vec::new();
    let mut i: usize = from;
    while i < to
        invariant
            from <= i <= to,
            to <= v@.len(),
            r@ == v@.subrange(from as int, i as int),
        decreases to - i,
    {
        r.push(v[i]);
        i += 1;
        assert(r@ =~= v@.subrange(from as int, i as int));
    }
    r
}

/// Appends the characters of `s` to `out`.
pub fn push_str_chars(out: &mut Vec<char>, s: &str)
    ensures
        final(out)@ == old(out)@ + s@,
{
    let n = s.unicode_len();
    let mut i: usize = 0;
    while i < n
        invariant
            n == s@.len(),
            i <= n,
            out@ == old(out)@ + s@.subrange(0, i as int),
        decreases n - i,
    {
        out.push(s.get_char(i));
        i += 1;
        assert(out@ =~= old(out)@ + s@.subrange(0, i as int));
    }
    assert(s@.subrange(0, n as int) =~= s@);
}

/// Appends all of `s` to `out`.
pub fn push_all(out: &mut Vec<char>, s: &Vec<char>)
    ensures
        final(out)@ == old(out)@ + s@,
{
    let n = s.len();
    let mut i: usize = 0;
    while i < n
        invariant
            n == s@.len(),
            i <= n,
            out@ == old(out)@ + s@.subrange(0, i as int),
        decreases n - i,
    {
        out.push(s[i]);
        i += 1;
        assert(out@ =~= old(out)@ + s@.subrange(0, i as int));
    }
    assert(s@.subrange(0, n as int) =~= s@);
}

/// Which characters a trim removes.
#[derive(Clone, Copy, PartialEq, Eq, Structural)]
pub enum TrimClass {
    /// Unicode `White_Space` (what `str::trim` removes).
    Unicode,
    /// Space and tab.
    SpaceTab,
    /// Space, tab and carriage return.
    SpaceTabCr,
}

/// Unicode `White_Space`: what `char::is_whitespace` accepts.
pub open spec fn is_unicode_whitespace(c: char) -> bool {
    let u = c as u32;
    (0x9 <= u <= 0xd) || u == 0x20 || u == 0x85 || u == 0xa0 || u == 0x1680 || (0x2000 <= u <= 0x200a)
        || u == 0x2028 || u == 0x2029 || u == 0x202f || u == 0x205f || u == 0x3000
}

/// Whether `c` belongs to the class `k`.
pub open spec fn in_class(k: TrimClass, c: char) -> bool {
    match k {
        TrimClass::Unicode => is_unicode_whitespace(c),
        TrimClass::SpaceTab => c == ' ' || c == '\t',
        TrimClass::SpaceTabCr => c == ' ' || c == '\t' || c == '\r',
    }
}

/// Whether `c` belongs to the class `k`.
pub fn char_in_class(k: TrimClass, c: char) -> (r: bool)
    ensures
        r == in_class(k, c),
{
    match k {
        TrimClass::Unicode => {
            let u = c as u32;
            (0x9 <= u && u <= 0xd) || u == 0x20 || u == 0x85 || u == 0xa0 || u == 0x1680 || (0x2000 <= u
                && u <= 0x200a) || u == 0x2028 || u == 0x2029 || u == 0x202f || u == 0x205f || u == 0x3000
        },
        TrimClass::SpaceTab => c == ' ' || c == '\t',
        TrimClass::SpaceTabCr => c == ' ' || c == '\t' || c == '\r',
    }
}

/// `s` without its leading characters of class `k`.
pub open spec fn trim_start(s: Seq<char>, k: TrimClass) -> Seq<char>
    decreases s.len(),
{
    if s.len() > 0 && in_class(k, s[0]) {
        trim_start(s.drop_first(), k)
    } else {
        s
    }
}

/// `s` without its trailing characters of class `k`.
pub open spec fn trim_end(s: Seq<char>, k: TrimClass) -> Seq<char>
    decreases s.len(),
{
    if s.len() > 0 && in_class(k, s.last()) {
        trim_end(s.drop_last(), k)
    } else {
        s
    }
}

/// `s` without its leading and trailing characters of class `k`.
pub open spec fn trimmed(s: Seq<char>, k: TrimClass) -> Seq<char> {
    trim_end(trim_start(s, k), k)
}

proof fn lemma_trim_start_at(s: Seq<char>, k: TrimClass, i: int)
    requires
        0 <= i <= s.len(),
        forall|j: int| 0 <= j < i ==> in_class(k, s[j]),
        i == s.len() || !in_class(k, s[i]),
    ensures
        trim_start(s, k) == s.skip(i),
    decreases i,
{
    if i == 0 {
        assert(s.skip(0) =~= s);
    } else {
        let t = s.drop_first();
        assert forall|j: int| 0 <= j < i - 1 implies in_class(k, t[j]) by {
            assert(t[j] == s[j + 1]);
        }
        if i - 1 < t.len() {
            assert(t[i - 1] == s[i]);
        }
        lemma_trim_start_at(t, k, i - 1);
        assert(t.skip(i - 1) =~= s.skip(i));
    }
}

proof fn lemma_trim_end_at(s: Seq<char>, k: TrimClass, e: int)
    requires
        0 <= e <= s.len(),
        forall|j: int| e <= j < s.len() ==> in_class(k, s[j]),
        e == 0 || !in_class(k, s[e - 1]),
    ensures
        trim_end(s, k) == s.take(e),
    decreases s.len() - e,
{
    if e == s.len() {
        assert(s.take(e) =~= s);
    } else {
        let t = s.drop_last();
        assert forall|j: int| e <= j < t.len() implies in_class(k, t[j]) by {
            assert(t[j] == s[j]);
        }
        if e > 0 {
            assert(t[e - 1] == s[e - 1]);
        }
        lemma_trim_end_at(t, k, e);
        assert(t.take(e) =~= s.take(e));
    }
}

/// The characters of `v` without leading and trailing characters of class
/// `k`.
pub fn trim_chars(v: &Vec<char>, k: TrimClass) -> (r: Vec<char>)
    ensures
        r@ == trimmed(v@, k),
{
    let n = v.len();
    let mut i: usize = 0;
    while i < n && char_in_class(k, v[i])
        invariant
            n == v@.len(),
            i <= n,
            forall|j: int| 0 <= j < i ==> in_class(k, v@[j]),
        decreases n - i,
    {
        i += 1;
    }
    proof {
        lemma_trim_start_at(v@, k, i as int);
    }
    let mut e: usize = n;
    while e > i && char_in_class(k, v[e - 1])
        invariant
            n == v@.len(),
            i <= e <= n,
            forall|j: int| e <= j < n ==> in_class(k, v@[j]),
        decreases e,
    {
        e -= 1;
    }
    let r = slice_chars(v, i, e);
    proof {
        let t = v@.skip(i as int);
        let ee = e - i;
        assert forall|j: int| ee <= j < t.len() implies in_class(k, t[j]) by {
            assert(t[j] == v@[j + i]);
        }
        if ee > 0 {
            assert(t[ee - 1] == v@[e - 1]);
        }
        lemma_trim_end_at(t, k, ee as int);
        assert(t.take(ee as int) =~= v@.subrange(i as int, e as int));
    }
    r
}

/// The decimal digit character for `d < 10`.
pub open spec fn digit_char(d: nat) -> char {
    ((d + 48) as u8) as char
}

/// The decimal rendering of `n`, without leading zeros.
pub open spec fn decimal(n: nat) -> Seq<char>
    decreases n,
{
    if n < 10 {
        seq![digit_char(n)]
    } else {
        decimal(n / 10).push(digit_char(n % 10))
    }
}

/// Appends the decimal rendering of `n` to `out`.
pub fn push_decimal(out: &mut Vec<char>, n: u64)
    ensures
        final(out)@ == old(out)@ + decimal(n as nat),
    decreases n,
{
    if n < 10 {
        let d = (n as u8 + 48u8) as char;
        out.push(d);
        assert(old(out)@ + decimal(n as nat) =~= old(out)@.push(d));
    } else {
        push_decimal(out, n / 10);
        let d = ((n % 10) as u8 + 48u8) as char;
        out.push(d);
        assert(decimal(n as nat) == decimal((n / 10) as nat).push(digit_char((n % 10) as nat)));
        assert(final(out)@ =~= old(out)@ + decimal(n as nat));
    }
}

/// The UTF-8 bytes of a sequence of characters that are all ASCII.
pub open spec fn ascii_bytes(s: Seq<char>) -> Seq<u8> {
    Seq::new(s.len(), |i: int| s[i] as u8)
}

/// Whether every character of `s` is ASCII.
pub open spec fn all_ascii(s: Seq<char>) -> bool {
    forall|i: int| 0 <= i < s.len() ==> (s[i] as u32) < 128
}

/// The bytes of an all-ASCII character sequence.
pub fn ascii_to_bytes(v: &Vec<char>) -> (r: Vec<u8>)
    requires
        all_ascii(v@),
    ensures
        r@ == ascii_bytes(v@),
{
    let mut r: Vec<u8> = Vec::new();
    let n = v.len();
    let mut i: usize = 0;
    while i < n
        invariant
            n == v@.len(),
            i <= n,
            all_ascii(v@),
            r@ =~= ascii_bytes(v@.subrange(0, i as int)),
        decreases n - i,
    {
        let c = v[i];
        assert((c as u32) < 128);
        r.push(c as u8);
        i += 1;
        assert(r@ =~= ascii_bytes(v@.subrange(0, i as int)));
    }
    assert(v@.subrange(0, n as int) =~= v@);
    r
}

/// Every digit of a decimal rendering is ASCII.
pub proof fn lemma_decimal_ascii(n: nat)
    ensures
        all_ascii(decimal(n)),
        decimal(n).len() >= 1,
    decreases n,
{
    if n >= 10 {
        lemma_decimal_ascii(n / 10);
    }
}

/// The views of `args` joined with single spaces.
pub open spec fn join_spaced(args: Seq<String>) -> Seq<char>
    decreases args.len(),
{
    if args.len() == 0 {
        Seq::empty()
    } else if args.len() == 1 {
        args[0]@
    } else {
        join_spaced(args.drop_last()) + " "@ + args.last()@
    }
}

/// The strings of `args` joined with single spaces.
pub fn join_args(args: &[String]) -> (r: Vec<char>)
    ensures
        r@ == join_spaced(args@),
{
    let mut r: Vec<char> = Vec::new();
    let n = args.len();
    let mut i: usize = 0;
    while i < n
        invariant
            n == args@.len(),
            i <= n,
            r@ == join_spaced(args@.subrange(0, i as int)),
        decreases n - i,
    {
        if i > 0 {
            push_str_chars(&mut r, " ");
        }
        push_str_chars(&mut r, args[i].as_str());
        proof {
            let s = args@.subrange(0, i + 1);
            assert(s.drop_last() =~= args@.subrange(0, i as int));
            if i == 0 {
                assert(r@ =~= join_spaced(s));
            }
        }
        i += 1;
    }
    assert(args@.subrange(0, n as int) =~= args@);
    r
}

/// Whether `s` is exactly `lit`.
pub fn str_is(s: &str, lit: &str) -> (r: bool)
    ensures
        r == (s@ == lit@),
{
    let c = chars_of(s);
    eq_str(&c, lit)
}

/// The string `a` followed by `b`.
pub fn concat_str(a: &str, b: &str) -> (r: String)
    ensures
        r@ == a@ + b@,
{
    let mut m: Vec<char> = Vec::new();
    push_str_chars(&mut m, a);
    push_str_chars(&mut m, b);
    string_of(&m)
}

/// The string `a` followed by the characters of `b`.
pub fn concat_chars(a: &str, b: &Vec<char>) -> (r: String)
    ensures
        r@ == a@ + b@,
{
    let mut m: Vec<char> = Vec::new();
    push_str_chars(&mut m, a);
    push_all(&mut m, b);
    string_of(&m)
}

/// The position of the first `c` in `v[from..to]`, counted in `v`.
pub fn find_char_in(v: &Vec<char>, from: usize, to: usize, c: char) -> (r: Option<usize>)
    requires
        from <= to <= v@.len(),
    ensures
        r matches Some(k) ==> from <= k < to && first_index(v@.subrange(from as int, to as int), c)
            == Some(k - from),
        r is None ==> first_index(v@.subrange(from as int, to as int), c) is None,
{
    let ghost s = v@.subrange(from as int, to as int);
    let mut i: usize = from;
    while i < to
        invariant
            from <= i <= to,
            to <= v@.len(),
            s == v@.subrange(from as int, to as int),
            forall|j: int| 0 <= j < i - from ==> s[j] != c,
        decreases to - i,
    {
        if v[i] == c {
            proof {
                lemma_first_index(s, c, i - from);
            }
            return Some(i);
        }
        i += 1;
    }
    proof {
        lemma_first_index(s, c, to - from);
    }
    None
}

/// The bounds of `v[from..to]` without its leading and trailing characters
/// of class `k`.
pub fn trim_range(v: &Vec<char>, from: usize, to: usize, k: TrimClass) -> (r: (usize, usize))
    requires
        from <= to <= v@.len(),
    ensures
        from <= r.0 <= r.1 <= to,
        v@.subrange(r.0 as int, r.1 as int) == trimmed(v@.subrange(from as int, to as int), k),
{
    let ghost s = v@.subrange(from as int, to as int);
    let mut i: usize = from;
    while i < to && char_in_class(k, v[i])
        invariant
            from <= i <= to,
            to <= v@.len(),
            s == v@.subrange(from as int, to as int),
            forall|j: int| 0 <= j < i - from ==> in_class(k, s[j]),
        decreases to - i,
    {
        i += 1;
    }
    proof {
        lemma_trim_start_at(s, k, i - from);
    }
    let mut e: usize = to;
    while e > i && char_in_class(k, v[e - 1])
        invariant
            from <= i <= e <= to,
            to <= v@.len(),
            forall|j: int| e <= j < to ==> in_class(k, v@[j]),
        decreases e,
    {
        e -= 1;
    }
    proof {
        let t = s.skip(i - from);
        let ee = e - i;
        assert forall|j: int| ee <= j < t.len() implies in_class(k, t[j]) by {
            assert(t[j] == v@[j + i]);
        }
        if ee > 0 {
            assert(t[ee - 1] == v@[e - 1]);
        }
        lemma_trim_end_at(t, k, ee as int);
        assert(t.take(ee as int) =~= v@.subrange(i as int, e as int));
    }
    (i, e)
}

/// Joining two all-ASCII sequences keeps them all ASCII.
pub proof fn lemma_ascii_concat(a: Seq<char>, b: Seq<char>)
    requires
        all_ascii(a),
        all_ascii(b),
    ensures
        all_ascii(a + b),
{
    assert forall|i: int| 0 <= i < (a + b).len() implies ((a + b)[i] as u32) < 128 by {
        if i < a.len() {
            assert((a + b)[i] == a[i]);
        } else {
            assert((a + b)[i] == b[i - a.len()]);
        }
    }
}

/// Appends the decimal rendering of `n` to an all-ASCII `out`, which stays
/// all ASCII.
pub fn push_decimal_ascii(out: &mut Vec<char>, n: u64)
    requires
        all_ascii(old(out)@),
    ensures
        final(out)@ == old(out)@ + decimal(n as nat),
        all_ascii(final(out)@),
{
    push_decimal(out, n);
    proof {
        lemma_decimal_ascii(n as nat);
        lemma_ascii_concat(old(out)@, decimal(n as nat));
    }
}

/// Appends an ASCII character to an all-ASCII `out`, which stays all ASCII.
pub fn push_ascii(out: &mut Vec<char>, c: char)
    requires
        all_ascii(old(out)@),
        (c as u32) < 128,
    ensures
        final(out)@ == old(out)@.push(c),
        all_ascii(final(out)@),
{
    out.push(c);
    proof {
        assert forall|i: int| 0 <= i < final(out)@.len() implies (final(out)@[i] as u32) < 128 by {
            if i < old(out)@.len() {
                assert(final(out)@[i] == old(out)@[i]);
            }
        }
    }
}

/// The views of a list of strings.
pub open spec fn strings_view(v: Seq<String>) -> Seq<Seq<char>> {
    v.map_values(|s: String| s@)
}

/// Trimming leaves alone a sequence that neither starts nor ends with a
/// character of the class.
pub proof fn lemma_trimmed_unchanged(s: Seq<char>, k: TrimClass)
    requires
        s.len() > 0 ==> !in_class(k, s[0]) && !in_class(k, s.last()),
    ensures
        trimmed(s, k) == s,
{
    assert(trim_start(s, k) == s);
    assert(trim_end(s, k) == s);
}

} // verus!
