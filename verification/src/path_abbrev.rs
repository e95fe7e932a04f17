//! Abbreviation of directory paths for at-a-glance display: the home
//! directory prefix becomes `~`, and a path that is still longer than
//! [`MAX_DISPLAY_CHARS`] characters is middle-elided to "(root +) first
//! component + `…` + last two components", or, when that is still too long,
//! to "`…` + last two components". The separator is `/` when the input holds
//! one and `\` otherwise, and the output is built with the same separator.
use vstd::prelude::*;
use vstd::string::*;
use crate::text::{chars_of, string_of, has_char, contains_char, push_all};

verus! {

/// The display length (in characters) above which a path is elided.
pub const MAX_DISPLAY_CHARS: usize = 32;

/// The horizontal ellipsis `…`.
pub open spec fn ellipsis() -> char {
    '\u{2026}'
}

/// The separator a path is split on: `/` when it holds one, `\` otherwise.
pub open spec fn path_sep(p: Seq<char>) -> char {
    if has_char(p, '/') {
        '/'
    } else {
        '\\'
    }
}

/// Whether `pre` is a prefix of `s`.
pub open spec fn is_prefix(pre: Seq<char>, s: Seq<char>) -> bool {
    pre.len() <= s.len() && s.subrange(0, pre.len() as int) == pre
}

/// The optional home directory as a character sequence.
pub open spec fn opt_view(o: Option<&str>) -> Option<Seq<char>> {
    match o {
        Some(s) => Some(s@),
        None => None,
    }
}

/// `p` with a leading home directory replaced by `~` -- only when `p` is the
/// home directory itself or lies below it (the home directory followed by the
/// separator).
pub open spec fn tilde_form(p: Seq<char>, home: Option<Seq<char>>) -> Seq<char> {
    let sep = path_sep(p);
    match home {
        Some(h) => if h.len() > 0 && p == h {
            seq!['~']
        } else if h.len() > 0 && is_prefix(h, p) && h.len() < p.len() && p[h.len() as int] == sep {
            seq!['~'] + p.skip(h.len() as int)
        } else {
            p
        },
        None => p,
    }
}

/// The root kept as a prefix when eliding (`~` + separator, or the bare
/// separator of an absolute path) and the remainder split into components.
pub open spec fn root_and_rest(t: Seq<char>, sep: char) -> (Seq<char>, Seq<char>) {
    if t.len() >= 2 && t[0] == '~' && t[1] == sep {
        (seq!['~', sep], t.skip(2))
    } else if t.len() >= 1 && t[0] == sep {
        (seq![sep], t.skip(1))
    } else {
        (Seq::empty(), t)
    }
}

/// Splitting `s` at every `sep`, dropping empty pieces; `cur` is the piece
/// being read and `acc` the pieces already complete.
pub open spec fn components_from(s: Seq<char>, sep: char, cur: Seq<char>, acc: Seq<Seq<char>>) -> Seq<Seq<char>>
    decreases s.len(),
{
    if s.len() == 0 {
        if cur.len() > 0 {
            acc.push(cur)
        } else {
            acc
        }
    } else if s[0] == sep {
        components_from(s.skip(1), sep, Seq::empty(), if cur.len() > 0 { acc.push(cur) } else { acc })
    } else {
        components_from(s.skip(1), sep, cur.push(s[0]), acc)
    }
}

/// The non-empty pieces of `s` between occurrences of `sep`, in order.
pub open spec fn components(s: Seq<char>, sep: char) -> Seq<Seq<char>> {
    components_from(s, sep, Seq::empty(), Seq::empty())
}

/// `sep + a + sep + b`.
pub open spec fn joined_tail(sep: char, a: Seq<char>, b: Seq<char>) -> Seq<char> {
    seq![sep] + a + seq![sep] + b
}

/// The abbreviated display form of `p` (see the module documentation).
pub open spec fn abbreviated(p: Seq<char>, home: Option<Seq<char>>) -> Seq<char> {
    let t = tilde_form(p, home);
    let sep = path_sep(p);
    if t.len() <= MAX_DISPLAY_CHARS {
        t
    } else {
        let (root, rest) = root_and_rest(t, sep);
        let c = components(rest, sep);
        let n = c.len();
        if n < 4 {
            t
        } else {
            let tail = joined_tail(sep, c[n - 2], c[n - 1]);
            let elided = root + c[0] + seq![sep, ellipsis()] + tail;
            if elided.len() <= MAX_DISPLAY_CHARS {
                elided
            } else {
                seq![ellipsis()] + tail
            }
        }
    }
}

/// Whether `s` looks like an absolute path: it starts with `/`, `~` or `\`,
/// or with a drive letter (`C:\` / `C:/`).
pub open spec fn looks_like_path(s: Seq<char>) -> bool {
    (s.len() >= 1 && (s[0] == '/' || s[0] == '~' || s[0] == '\\')) || (s.len() >= 3 && (s[0] as u32) < 128
        && s[1] == ':' && (s[2] == '\\' || s[2] == '/'))
}

/// The tilde form of `p`.
fn tilde_chars(p: &Vec<char>, home: Option<&str>, sep: char) -> (r: Vec<char>)
    requires
        sep == path_sep(p@),
    ensures
        r@ == tilde_form(p@, opt_view(home)),
{
    match home {
        Some(h) => {
            let hv = chars_of(h);
            let hl = hv.len();
            if hl > 0 && hl <= p.len() {
                let mut i: usize = 0;
                while i < hl
                    invariant
                        hl == hv@.len(),
                        hv@ == h@,
                        home == Some(h),
                        hl <= p@.len(),
                        i <= hl,
                        forall|j: int| 0 <= j < i ==> p@[j] == hv@[j],
                    decreases hl - i,
                {
                    if p[i] != hv[i] {
                        assert(p@.subrange(0, hl as int)[i as int] != hv@[i as int]);
                        assert(p@.subrange(0, hl as int) != hv@);
                        assert(p@ != hv@);
                        return p.clone();
                    }
                    i += 1;
                }
                assert(p@.subrange(0, hl as int) =~= hv@);
                if hl == p.len() {
                    assert(p@ =~= hv@);
                    let mut r: Vec<char> = Vec::new();
                    r.push('~');
                    assert(r@ =~= seq!['~']);
                    return r;
                }
                if p[hl] == sep {
                    let mut r: Vec<char> = Vec::new();
                    r.push('~');
                    let mut k: usize = hl;
                    while k < p.len()
                        invariant
                            hl <= k <= p@.len(),
                            r@ == seq!['~'] + p@.subrange(hl as int, k as int),
                        decreases p@.len() - k,
                    {
                        r.push(p[k]);
                        k += 1;
                        assert(r@ =~= seq!['~'] + p@.subrange(hl as int, k as int));
                    }
                    assert(p@.subrange(hl as int, p@.len() as int) =~= p@.skip(hl as int));
                    return r;
                }
                p.clone()
            } else {
                if hl > 0 {
                    assert(p@ != hv@);
                }
                p.clone()
            }
        },
        None => p.clone(),
    }
}

/// The non-empty components of `v` between separators.
fn split_components(v: &Vec<char>, sep: char) -> (r: Vec<Vec<char>>)
    ensures
        r@.len() == components(v@, sep).len(),
        forall|i: int| 0 <= i < r@.len() ==> #[trigger] r@[i]@ == components(v@, sep)[i],
{
    let n = v.len();
    let mut acc: Vec<Vec<char>> = Vec::new();
    let mut cur: Vec<char> = Vec::new();
    let mut i: usize = 0;
    let ghost mut acc_v: Seq<Seq<char>> = Seq::empty();
    assert(v@.skip(0) =~= v@);
    while i < n
        invariant
            n == v@.len(),
            i <= n,
            acc@.len() == acc_v.len(),
            forall|k: int| 0 <= k < acc@.len() ==> #[trigger] acc@[k]@ == acc_v[k],
            components_from(v@.skip(i as int), sep, cur@, acc_v) == components(v@, sep),
        decreases n - i,
    {
        let ghost rest = v@.skip(i as int);
        assert(rest.skip(1) =~= v@.skip(i + 1));
        let c = v[i];
        if c == sep {
            if cur.len() > 0 {
                let done = cur;
                proof {
                    acc_v = acc_v.push(done@);
                }
                acc.push(done);
            }
            cur = Vec::new();
            assert(cur@ =~= Seq::<char>::empty());
        } else {
            cur.push(c);
        }
        i += 1;
    }
    assert(v@.skip(n as int) =~= Seq::<char>::empty());
    if cur.len() > 0 {
        let done = cur;
        proof {
            acc_v = acc_v.push(done@);
        }
        acc.push(done);
    }
    acc
}

/// Abbreviates `path` for display. `home` is the absolute path of the home
/// directory (`None`, or a non-matching one, means no `~` substitution).
/// Lengths are counted in characters, never bytes.
pub fn abbreviate_path(path: &str, home: Option<&str>) -> (r: String)
    ensures
        r@ == abbreviated(path@, opt_view(home)),
{
    let p = chars_of(path);
    let sep = if contains_char(&p, '/') { '/' } else { '\\' };
    let t = tilde_chars(&p, home, sep);
    if t.len() <= MAX_DISPLAY_CHARS {
        return string_of(&t);
    }
    let ghost rr = root_and_rest(t@, sep);
    let mut root: Vec<char> = Vec::new();
    let rest: Vec<char>;
    if t.len() >= 2 && t[0] == '~' && t[1] == sep {
        root.push('~');
        root.push(sep);
        rest = crate::text::slice_chars(&t, 2, t.len());
        assert(rest@ =~= t@.skip(2));
    } else if t.len() >= 1 && t[0] == sep {
        root.push(sep);
        rest = crate::text::slice_chars(&t, 1, t.len());
        assert(rest@ =~= t@.skip(1));
    } else {
        rest = t.clone();
    }
    assert(root@ =~= rr.0);
    assert(rest@ =~= rr.1);
    let comps = split_components(&rest, sep);
    let n = comps.len();
    if n < 4 {
        return string_of(&t);
    }
    let ghost c = components(rest@, sep);
    assert(comps@[0]@ == c[0]);
    assert(comps@[n - 2]@ == c[n - 2]);
    assert(comps@[n - 1]@ == c[n - 1]);
    let mut tail: Vec<char> = Vec::new();
    tail.push(sep);
    push_all(&mut tail, &comps[n - 2]);
    tail.push(sep);
    push_all(&mut tail, &comps[n - 1]);
    assert(tail@ =~= joined_tail(sep, c[n - 2], c[n - 1]));
    let mut elided: Vec<char> = root;
    push_all(&mut elided, &comps[0]);
    elided.push(sep);
    elided.push('\u{2026}');
    push_all(&mut elided, &tail);
    assert(elided@ =~= rr.0 + c[0] + seq![sep, ellipsis()] + joined_tail(sep, c[n - 2], c[n - 1]));
    if elided.len() <= MAX_DISPLAY_CHARS {
        return string_of(&elided);
    }
    let mut last: Vec<char> = Vec::new();
    last.push('\u{2026}');
    push_all(&mut last, &tail);
    assert(last@ =~= seq![ellipsis()] + joined_tail(sep, c[n - 2], c[n - 1]));
    string_of(&last)
}

/// Applies [`abbreviate_path`] only when `name` looks like an absolute path
/// (a leading `/`, `~` or `\`, or a Windows drive letter); anything else (an
/// `owner/repo` slug, a folder name) is returned as is.
pub fn abbreviate_if_path(name: &str, home: Option<&str>) -> (r: String)
    ensures
        looks_like_path(name@) ==> r@ == abbreviated(name@, opt_view(home)),
        !looks_like_path(name@) ==> r@ == name@,
{
    let v = chars_of(name);
    let n = v.len();
    let looks = (n >= 1 && (v[0] == '/' || v[0] == '~' || v[0] == '\\')) || (n >= 3 && (v[0] as u32) < 128
        && v[1] == ':' && (v[2] == '\\' || v[2] == '/'));
    if looks {
        abbreviate_path(name, home)
    } else {
        string_of(&v)
    }
}

/// A path whose home-abbreviated form fits is shown as that form; a path
/// that is elided keeps its last two components, whole, at the end of what
/// is shown.
pub proof fn law_elision_keeps_the_last_two_components(p: Seq<char>, home: Option<Seq<char>>)
    ensures
        tilde_form(p, home).len() <= MAX_DISPLAY_CHARS ==> abbreviated(p, home) == tilde_form(p, home),
        ({
            let t = tilde_form(p, home);
            let sep = path_sep(p);
            let c = components(root_and_rest(t, sep).1, sep);
            let n = c.len();
            let a = abbreviated(p, home);
            a != t ==> {
                let tail = joined_tail(sep, c[n - 2], c[n - 1]);
                &&& n >= 4
                &&& tail.len() <= a.len()
                &&& a.subrange(a.len() - tail.len(), a.len() as int) == tail
            }
        }),
{
    let t = tilde_form(p, home);
    let sep = path_sep(p);
    let c = components(root_and_rest(t, sep).1, sep);
    let n = c.len();
    if t.len() > MAX_DISPLAY_CHARS && n >= 4 {
        let tail = joined_tail(sep, c[n - 2], c[n - 1]);
        let head = root_and_rest(t, sep).0 + c[0] + seq![sep, ellipsis()];
        let elided = head + tail;
        assert(elided.subrange(elided.len() - tail.len(), elided.len() as int) =~= tail);
        let last = seq![ellipsis()] + tail;
        assert(last.subrange(last.len() - tail.len(), last.len() as int) =~= tail);
    }
}

} // verus!
